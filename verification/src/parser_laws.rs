//! What is kept of what the parser gives.
use vstd::prelude::*;
use crate::ast::{DefinitionView, FieldView, TypeDefinitionView, TypeExtensionView};
use crate::parser;
use crate::parser::{
    DefinitionParts, DirectiveParts, EnumValueParts, FieldParts, InputValueParts,
};

verus! {

/// Whether a text is said exactly where there is one, and is that text.
pub open spec fn said_or_not(said: Option<Seq<char>>, s: Option<String>) -> bool {
    match s {
        Some(s) => said == Some(s@),
        None => said is None,
    }
}

/// Whether the texts are said in their order.
pub open spec fn said_in_order(said: Seq<Seq<char>>, texts: Seq<String>) -> bool {
    &&& said.len() == texts.len()
    &&& forall|i: int| 0 <= i < texts.len() ==> #[trigger] said[i] == texts[i]@
}

/// A directive keeps its position, its name and each of its arguments in its place.
pub proof fn law_directives_are_kept(d: DirectiveParts)
    ensures
        parser::directive_said(d).position == d.position,
        parser::directive_said(d).name == d.name@,
        parser::directive_said(d).arguments.len() == d.arguments@.len(),
        forall|i: int|
            0 <= i < d.arguments@.len() ==> #[trigger] parser::directive_said(d).arguments[i] == (
                d.arguments@[i].0@,
                parser::value_held(d.arguments@[i].1),
            ),
{
}

/// An input value keeps all that it has.
pub proof fn law_input_values_are_kept(v: InputValueParts)
    ensures
        parser::input_value_said(v).position == v.position,
        said_or_not(parser::input_value_said(v).description, v.description),
        parser::input_value_said(v).name == v.name@,
        parser::input_value_said(v).value_type == parser::type_held(v.value_type),
        v.default_value is None <==> parser::input_value_said(v).default_value is None,
        v.default_value is Some ==> parser::input_value_said(v).default_value == Some(
            parser::value_held(v.default_value->0),
        ),
        parser::input_value_said(v).directives == parser::directives_held(v.directives),
{
}

/// A field keeps all that it has, and the text that is printed of it.
pub proof fn law_fields_are_kept(f: FieldParts)
    ensures
        parser::field_said(f).position == f.position,
        said_or_not(parser::field_said(f).description, f.description),
        parser::field_said(f).name == f.name@,
        parser::field_said(f).arguments == parser::input_values_held(f.arguments),
        parser::field_said(f).field_type == parser::type_held(f.field_type),
        parser::field_said(f).directives == parser::directives_held(f.directives),
        parser::field_said(f).text == f.text@,
{
}

/// A value of an enum type keeps all that it has.
pub proof fn law_enum_values_are_kept(v: EnumValueParts)
    ensures
        parser::enum_value_said(v).position == v.position,
        said_or_not(parser::enum_value_said(v).description, v.description),
        parser::enum_value_said(v).name == v.name@,
        parser::enum_value_said(v).directives == parser::directives_held(v.directives),
{
}

/// A definition is of the kind that was parsed, and keeps all that it has.
pub proof fn law_definitions_are_kept(p: DefinitionParts)
    ensures
        match p {
            DefinitionParts::Object(
                position, description, name, implements_interfaces, directives, fields,
            ) => {
                &&& parser::definition_said(p) matches DefinitionView::TypeDefinition(
                    TypeDefinitionView::Object(t),
                )
                &&& t.position == position
                &&& said_or_not(t.description, description)
                &&& t.name == name@
                &&& said_in_order(t.implements_interfaces, implements_interfaces@)
                &&& t.directives == parser::directives_held(directives)
                &&& t.fields == parser::fields_held(fields)
            },
            DefinitionParts::Interface(
                position, description, name, implements_interfaces, directives, fields,
            ) => {
                &&& parser::definition_said(p) matches DefinitionView::TypeDefinition(
                    TypeDefinitionView::Interface(t),
                )
                &&& t.position == position
                &&& said_or_not(t.description, description)
                &&& t.name == name@
                &&& said_in_order(t.implements_interfaces, implements_interfaces@)
                &&& t.directives == parser::directives_held(directives)
                &&& t.fields == parser::fields_held(fields)
            },
            DefinitionParts::InputObject(position, description, name, directives, fields) => {
                &&& parser::definition_said(p) matches DefinitionView::TypeDefinition(
                    TypeDefinitionView::InputObject(t),
                )
                &&& t.position == position
                &&& said_or_not(t.description, description)
                &&& t.name == name@
                &&& t.directives == parser::directives_held(directives)
                &&& t.fields == parser::input_values_held(fields)
            },
            DefinitionParts::Scalar(position, description, name, directives) => {
                &&& parser::definition_said(p) matches DefinitionView::TypeDefinition(
                    TypeDefinitionView::Scalar(t),
                )
                &&& t.position == position
                &&& said_or_not(t.description, description)
                &&& t.name == name@
                &&& t.directives == parser::directives_held(directives)
            },
            DefinitionParts::Union(position, description, name, directives, types) => {
                &&& parser::definition_said(p) matches DefinitionView::TypeDefinition(
                    TypeDefinitionView::Union(t),
                )
                &&& t.position == position
                &&& said_or_not(t.description, description)
                &&& t.name == name@
                &&& t.directives == parser::directives_held(directives)
                &&& said_in_order(t.types, types@)
            },
            DefinitionParts::Enum(position, description, name, directives, values) => {
                &&& parser::definition_said(p) matches DefinitionView::TypeDefinition(
                    TypeDefinitionView::Enum(t),
                )
                &&& t.position == position
                &&& said_or_not(t.description, description)
                &&& t.name == name@
                &&& t.directives == parser::directives_held(directives)
                &&& t.values == parser::enum_values_held(values)
            },
            DefinitionParts::SchemaDefinition(
                position, directives, query, mutation, subscription,
            ) => {
                &&& parser::definition_said(p) matches DefinitionView::SchemaDefinition(t)
                &&& t.position == position
                &&& t.directives == parser::directives_held(directives)
                &&& said_or_not(t.query, query)
                &&& said_or_not(t.mutation, mutation)
                &&& said_or_not(t.subscription, subscription)
            },
            DefinitionParts::DirectiveDefinition(
                position, description, name, arguments, repeatable, locations,
            ) => {
                &&& parser::definition_said(p) matches DefinitionView::DirectiveDefinition(t)
                &&& t.position == position
                &&& said_or_not(t.description, description)
                &&& t.name == name@
                &&& t.arguments == parser::input_values_held(arguments)
                &&& t.repeatable == repeatable
                &&& said_in_order(t.locations, locations@)
            },
            DefinitionParts::ExtendedObject(
                position, name, implements_interfaces, directives, fields,
            ) => {
                &&& parser::definition_said(p) matches DefinitionView::TypeExtension(
                    TypeExtensionView::Object(t),
                )
                &&& t.position == position
                &&& t.name == name@
                &&& said_in_order(t.implements_interfaces, implements_interfaces@)
                &&& t.directives == parser::directives_held(directives)
                &&& t.fields == parser::fields_held(fields)
            },
            DefinitionParts::ExtendedInterface(
                position, name, implements_interfaces, directives, fields,
            ) => {
                &&& parser::definition_said(p) matches DefinitionView::TypeExtension(
                    TypeExtensionView::Interface(t),
                )
                &&& t.position == position
                &&& t.name == name@
                &&& said_in_order(t.implements_interfaces, implements_interfaces@)
                &&& t.directives == parser::directives_held(directives)
                &&& t.fields == parser::fields_held(fields)
            },
            DefinitionParts::ExtendedScalar(position, name, directives) => {
                &&& parser::definition_said(p) matches DefinitionView::TypeExtension(
                    TypeExtensionView::Scalar(t),
                )
                &&& t.position == position
                &&& t.name == name@
                &&& t.directives == parser::directives_held(directives)
            },
            DefinitionParts::ExtendedUnion(position, name, directives, types) => {
                &&& parser::definition_said(p) matches DefinitionView::TypeExtension(
                    TypeExtensionView::Union(t),
                )
                &&& t.position == position
                &&& t.name == name@
                &&& t.directives == parser::directives_held(directives)
                &&& said_in_order(t.types, types@)
            },
            DefinitionParts::ExtendedEnum(position, name, directives, values) => {
                &&& parser::definition_said(p) matches DefinitionView::TypeExtension(
                    TypeExtensionView::Enum(t),
                )
                &&& t.position == position
                &&& t.name == name@
                &&& t.directives == parser::directives_held(directives)
                &&& t.values == parser::enum_values_held(values)
            },
            DefinitionParts::ExtendedInputObject(position, name, directives, fields) => {
                &&& parser::definition_said(p) matches DefinitionView::TypeExtension(
                    TypeExtensionView::InputObject(t),
                )
                &&& t.position == position
                &&& t.name == name@
                &&& t.directives == parser::directives_held(directives)
                &&& t.fields == parser::input_values_held(fields)
            },
            DefinitionParts::Unopened(d) => parser::definition_said(p) == parser::definition_held(
                d,
            ),
        },
{
}

/// The fields of the object type or interface that a definition defines or extends.
pub open spec fn fields_in(d: DefinitionView) -> Seq<FieldView> {
    match d {
        DefinitionView::TypeDefinition(TypeDefinitionView::Object(t)) => t.fields,
        DefinitionView::TypeDefinition(TypeDefinitionView::Interface(t)) => t.fields,
        DefinitionView::TypeExtension(TypeExtensionView::Object(t)) => t.fields,
        DefinitionView::TypeExtension(TypeExtensionView::Interface(t)) => t.fields,
        _ => Seq::empty(),
    }
}

/// The texts of a document fit exactly where the text of each field is what is
/// printed of the field.
pub proof fn law_texts_fit(doc: Seq<DefinitionView>)
    ensures
        parser::texts_fit(doc) <==> forall|i: int, j: int|
            #![trigger fields_in(doc[i])[j]]
            0 <= i < doc.len() && 0 <= j < fields_in(doc[i]).len() ==> {
                let f = fields_in(doc[i])[j];
                f.text == parser::printed_field(
                    f.description,
                    f.name,
                    f.arguments,
                    f.field_type,
                    f.directives,
                )
            },
{
    if parser::texts_fit(doc) {
        assert forall|i: int, j: int|
            #![trigger fields_in(doc[i])[j]]
            0 <= i < doc.len() && 0 <= j < fields_in(doc[i]).len() implies parser::text_fits(
            fields_in(doc[i])[j],
        ) by {
            assert(parser::definition_texts_fit(doc[i]));
        }
    }
    if forall|i: int, j: int|
        #![trigger fields_in(doc[i])[j]]
        0 <= i < doc.len() && 0 <= j < fields_in(doc[i]).len() ==> {
            let f = fields_in(doc[i])[j];
            f.text == parser::printed_field(
                f.description,
                f.name,
                f.arguments,
                f.field_type,
                f.directives,
            )
        } {
        assert forall|i: int| 0 <= i < doc.len() implies parser::definition_texts_fit(
            #[trigger] doc[i],
        ) by {
            assert forall|j: int| 0 <= j < fields_in(doc[i]).len() implies parser::text_fits(
                #[trigger] fields_in(doc[i])[j],
            ) by {}
        }
    }
}

} // verus!
