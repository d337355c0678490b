//! Validating `@derivedFrom` directives.
use vstd::prelude::*;
use vstd::string::*;
use crate::ast::{
    DefinitionView, Directive, DirectiveView, Document, Field, FieldView, ObjectType,
    ObjectTypeView, Value, ValueView,
};
use crate::document;
use crate::document::{TypeFields, find_field, find_fields};
use crate::errors;
use crate::errors::{SchemaValidationError, SchemaValidationErrorView};
use crate::names::contains_name;
use crate::schema::Schema;
use crate::seqs;
use crate::text::{concat3, join, same};

verus! {

broadcast use crate::seqs::lemma_deep_push;

/// The name of an interface, if it is one that has the field.
pub open spec fn interface_with_field(doc: Seq<DefinitionView>, name: Seq<char>) -> spec_fn(
    Seq<char>,
) -> Option<Seq<char>> {
    |interface: Seq<char>|
        match document::interface_type(doc, interface) {
            Some(t) => if document::field(t.fields, name) is Some {
                Some(interface)
            } else {
                None
            },
            None => None,
        }
}

/// The interfaces of an object type that have a field with that name: a field
/// that points back to the type may have any of them as its type.
pub open spec fn usable_interfaces(
    doc: Seq<DefinitionView>,
    object: ObjectTypeView,
    name: Seq<char>,
) -> Seq<Seq<char>> {
    seqs::collect(object.implements_interfaces, interface_with_field(doc, name))
}

/// The forms in which a field can have a type.
pub open spec fn type_signatures() -> spec_fn(Seq<char>) -> Seq<Seq<char>> {
    |name: Seq<char>|
        seq![name, name + "!"@, "["@ + name + "!]"@, "["@ + name + "!]!"@]
}

/// What is wrong with a `@derivedFrom` directive on a field of an object type.
pub open spec fn derived_from_reason(
    doc: Seq<DefinitionView>,
    object: ObjectTypeView,
    field: FieldView,
    derived_from: DirectiveView,
) -> Option<Seq<char>> {
    let target_name = field.field_type.base();
    match derived_from.argument("field"@) {
        None => Some("the @derivedFrom directive must have a `field` argument"@),
        Some(ValueView::String(name)) => match document::fields_of(doc, target_name) {
            None => Some("type must be an existing entity or interface"@),
            Some(fields) => match document::field(fields, name) {
                None => Some(
                    "field `"@ + name + "` does not exist on type `"@ + target_name + "`"@,
                ),
                Some(target) => {
                    let back = target.field_type.base();
                    let interfaces = usable_interfaces(doc, object, field.name);
                    if back == object.name || back == "ID"@ || interfaces.contains(back) {
                        None
                    } else {
                        Some(
                            "field `"@ + target.name + "` on type `"@ + target_name
                                + "` must have one of the following types: "@ + errors::listed(
                                type_signatures()(object.name) + seqs::flat_map(
                                    interfaces,
                                    type_signatures(),
                                ),
                            ),
                        )
                    }
                },
            },
        },
        Some(_) => Some("the @derivedFrom `field` argument must be a string"@),
    }
}

/// What is wrong with the `@derivedFrom` directive on a field, if it has one.
pub open spec fn field_error(doc: Seq<DefinitionView>, object: ObjectTypeView) -> spec_fn(
    FieldView,
) -> Option<SchemaValidationErrorView> {
    |field: FieldView|
        match document::directive(field.directives, "derivedFrom"@) {
            Some(derived_from) => match derived_from_reason(doc, object, field, derived_from) {
                Some(reason) => Some(
                    SchemaValidationErrorView::InvalidDerivedFrom(object.name, field.name, reason),
                ),
                None => None,
            },
            None => None,
        }
}

/// What is wrong with the first field of an object type of which something is.
pub open spec fn object_error(doc: Seq<DefinitionView>) -> spec_fn(ObjectTypeView) -> Option<
    SchemaValidationErrorView,
> {
    |object: ObjectTypeView| seqs::find_map(object.fields, field_error(doc, object))
}

/// What is wrong with the first `@derivedFrom` directive of a document of which
/// something is.
pub open spec fn derived_from_error(doc: Seq<DefinitionView>) -> Option<SchemaValidationErrorView> {
    seqs::find_map(document::object_types(doc), object_error(doc))
}

/// The interfaces of an object type that have a field with that name.
fn find_usable_interfaces(doc: &Document, object: &ObjectType, name: &str) -> (r: Vec<String>)
    ensures
        seqs::deep(r@) == usable_interfaces(doc@, object@, name@),
{
    let ghost all = seqs::deep(object.implements_interfaces@);
    let ghost f = interface_with_field(doc@, name@);
    let mut r: Vec<String> = Vec::new();
    let mut i: usize = 0;
    while i < object.implements_interfaces.len()
        invariant
            i <= object.implements_interfaces@.len(),
            all == seqs::deep(object.implements_interfaces@),
            f == interface_with_field(doc@, name@),
            seqs::deep(r@) == seqs::collect(all.take(i as int), f),
        decreases object.implements_interfaces@.len() - i,
    {
        proof {
            seqs::lemma_collect_step(all, f, i as int);
        }
        let interface = &object.implements_interfaces[i];
        if let Some(t) = doc.find_interface(interface.as_str()) {
            if find_field(&t.fields, name).is_some() {
                r.push(interface.clone());
            }
        }
        i += 1;
    }
    proof {
        seqs::lemma_take_all(all);
    }
    r
}

/// Puts the forms in which a field can have a type behind others.
fn push_type_signatures(signatures: &mut Vec<String>, name: &str)
    ensures
        seqs::deep(final(signatures)@) == seqs::deep(old(signatures)@) + type_signatures()(name@),
{
    let ghost before = seqs::deep(signatures@);
    signatures.push(name.to_owned());
    signatures.push(concat3(name, "!", ""));
    signatures.push(concat3("[", name, "!]"));
    signatures.push(concat3("[", name, "!]!"));
    proof {
        reveal_strlit("");
        assert(name@ + "!"@ + ""@ =~= name@ + "!"@);
        assert(seqs::deep(signatures@) =~= before + type_signatures()(name@));
    }
}

/// The forms in which a field can have an object type or one of the interfaces
/// as its type.
fn valid_types(object: &str, interfaces: &Vec<String>) -> (r: String)
    ensures
        r@ == errors::listed(
            type_signatures()(object@) + seqs::flat_map(
                seqs::deep(interfaces@),
                type_signatures(),
            ),
        ),
{
    let ghost all = seqs::deep(interfaces@);
    let ghost own = type_signatures()(object@);
    let mut signatures: Vec<String> = Vec::new();
    push_type_signatures(&mut signatures, object);
    assert(seqs::deep(signatures@) =~= own + seqs::flat_map(all.take(0), type_signatures()));
    let mut i: usize = 0;
    while i < interfaces.len()
        invariant
            i <= interfaces@.len(),
            all == seqs::deep(interfaces@),
            seqs::deep(signatures@) == own + seqs::flat_map(
                all.take(i as int),
                type_signatures(),
            ),
        decreases interfaces@.len() - i,
    {
        push_type_signatures(&mut signatures, interfaces[i].as_str());
        proof {
            seqs::lemma_flat_map_step(all, type_signatures(), i as int);
            assert(seqs::deep(signatures@) =~= own + seqs::flat_map(
                all.take(i + 1),
                type_signatures(),
            ));
        }
        i += 1;
    }
    proof {
        seqs::lemma_take_all(all);
    }
    join(&signatures, ", ")
}

/// What is wrong with a `@derivedFrom` directive on a field of an object type.
fn find_reason(
    doc: &Document,
    types: &Vec<TypeFields<'_>>,
    object: &ObjectType,
    field: &Field,
    derived_from: &Directive,
) -> (r: Option<String>)
    requires
        seqs::deep(types@) == document::type_fields(doc@),
    ensures
        seqs::opt(r) == derived_from_reason(doc@, object@, field@, derived_from@),
{
    let name = match derived_from.argument("field") {
        None => {
            return Some("the @derivedFrom directive must have a `field` argument".to_owned());
        },
        Some(Value::String(name)) => name,
        Some(_) => {
            return Some("the @derivedFrom `field` argument must be a string".to_owned());
        },
    };
    let target_name = field.field_type.get_base_type();
    let fields = match find_fields(types, target_name) {
        None => {
            return Some("type must be an existing entity or interface".to_owned());
        },
        Some(fields) => fields,
    };
    let target = match find_field(fields, name.as_str()) {
        None => {
            let mut reason = "field `".to_owned();
            reason.append(name.as_str());
            reason.append("` does not exist on type `");
            reason.append(target_name);
            reason.append("`");
            return Some(reason);
        },
        Some(target) => target,
    };
    // The field has to point back to the object type. As an exception it may be
    // an `id`: the query will then compare the ids of the two types.
    let back = target.field_type.get_base_type();
    let interfaces = find_usable_interfaces(doc, object, field.name.as_str());
    if same(back, object.name.as_str()) || same(back, "ID") || contains_name(&interfaces, back) {
        return None;
    }
    let mut reason = "field `".to_owned();
    reason.append(target.name.as_str());
    reason.append("` on type `");
    reason.append(target_name);
    reason.append("` must have one of the following types: ");
    reason.append(valid_types(object.name.as_str(), &interfaces).as_str());
    Some(reason)
}

impl Schema {
    /// Checks the `@derivedFrom` directives on the fields of the object types of a
    /// document.
    pub fn validate_derived_from(&self) -> (r: Result<(), SchemaValidationError>)
        ensures
            errors::problem(r) == derived_from_error(self.document@),
    {
        let objects = self.document.get_object_type_definitions();
        let types = self.document.get_object_and_interface_type_fields();
        let ghost all = seqs::deep(objects@);
        let ghost wrong = object_error(self.document@);
        let mut i: usize = 0;
        while i < objects.len()
            invariant
                i <= objects@.len(),
                all == seqs::deep(objects@),
                all == document::object_types(self.document@),
                seqs::deep(types@) == document::type_fields(self.document@),
                wrong == object_error(self.document@),
                seqs::find_map(all.take(i as int), wrong) is None,
            decreases objects@.len() - i,
        {
            let object = objects[i];
            let ghost fields = seqs::deep(object.fields@);
            let ghost wrong_field = field_error(self.document@, object@);
            proof {
                assert(all[i as int] == object@);
                seqs::lemma_find_map_step(all, wrong, i as int);
            }
            let mut j: usize = 0;
            while j < object.fields.len()
                invariant
                    j <= object.fields@.len(),
                    fields == seqs::deep(object.fields@),
                    all == document::object_types(self.document@),
                    seqs::deep(types@) == document::type_fields(self.document@),
                    wrong == object_error(self.document@),
                    wrong_field == field_error(self.document@, object@),
                    wrong(object@) is Some ==> seqs::find_map(all, wrong) == wrong(object@),
                    seqs::find_map(fields.take(j as int), wrong_field) is None,
                decreases object.fields@.len() - j,
            {
                let field = &object.fields[j];
                proof {
                    assert(fields[j as int] == field@);
                    seqs::lemma_find_map_step(fields, wrong_field, j as int);
                }
                if let Some(derived_from) = field.find_directive("derivedFrom") {
                    let reason = find_reason(&self.document, &types, object, field, derived_from);
                    if let Some(reason) = reason {
                        return Err(
                            SchemaValidationError::InvalidDerivedFrom(
                                object.name.clone(),
                                field.name.clone(),
                                reason,
                            ),
                        );
                    }
                }
                j += 1;
            }
            proof {
                seqs::lemma_take_all(fields);
            }
            i += 1;
        }
        proof {
            seqs::lemma_take_all(all);
        }
        Ok(())
    }
}

} // verus!
