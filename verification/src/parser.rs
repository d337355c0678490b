//! Reading a schema document with `graphql_parser`.
//!
//! The syntax trees of `graphql_parser` are generic over a trait of that crate,
//! so verified code cannot look into them. The structs named `Parsed..` hold
//! pieces of such a tree, the functions next to them hand out what is directly
//! inside a piece, and the functions named `build_..` make the tree of this
//! library from that.
use vstd::prelude::*;
use crate::ast;
use crate::ast::{
    Definition, DefinitionView, Directive, DirectiveDefinition, DirectiveDefinitionView,
    DirectiveView, Document, Entries, EnumType, EnumTypeExtension, EnumTypeExtensionView,
    EnumTypeView, EnumValue, EnumValueView, Field, FieldView, Float, InputObjectType,
    InputObjectTypeExtension, InputObjectTypeExtensionView, InputObjectTypeView, InputValue,
    InputValueView, InterfaceType, InterfaceTypeExtension, InterfaceTypeExtensionView,
    InterfaceTypeView, ObjectType, ObjectTypeExtension, ObjectTypeExtensionView, ObjectTypeView,
    Pos, ScalarType, ScalarTypeExtension, ScalarTypeExtensionView, ScalarTypeView, SchemaDefinition,
    SchemaDefinitionView, Type, TypeDefinition, TypeDefinitionView, TypeExtension,
    TypeExtensionView, TypeView, UnionType, UnionTypeExtension, UnionTypeExtensionView,
    UnionTypeView, Value, ValueView,
};
use crate::block_strings;
use crate::seqs;
use graphql_parser::schema::{
    Definition as AnyDefinition, Type as AnyType, TypeDefinition as AnyTypeDefinition,
    TypeExtension as AnyTypeExtension, Value as AnyValue,
};

verus! {

broadcast use crate::seqs::lemma_deep_push;

/// A type of `graphql_parser`.
#[verifier::external_body]
pub struct ParsedType(AnyType<'static, String>);

/// A value of `graphql_parser`.
#[verifier::external_body]
pub struct ParsedValue(AnyValue<'static, String>);

/// A list of directives of `graphql_parser`.
#[verifier::external_body]
pub struct ParsedDirectives(Vec<graphql_parser::schema::Directive<'static, String>>);

/// A list of input values of `graphql_parser`.
#[verifier::external_body]
pub struct ParsedInputValues(Vec<graphql_parser::schema::InputValue<'static, String>>);

/// A list of fields of `graphql_parser`.
#[verifier::external_body]
pub struct ParsedFields(Vec<graphql_parser::schema::Field<'static, String>>);

/// The values of an enum type of `graphql_parser`.
#[verifier::external_body]
pub struct ParsedEnumValues(Vec<graphql_parser::schema::EnumValue<'static, String>>);

/// A definition of `graphql_parser`.
#[verifier::external_body]
pub struct ParsedDefinition(AnyDefinition<'static, String>);

/// What a parsed type says.
pub uninterp spec fn type_held(t: ParsedType) -> TypeView;

/// What a parsed value says.
pub uninterp spec fn value_held(v: ParsedValue) -> ValueView;

/// What parsed directives say.
pub uninterp spec fn directives_held(ds: ParsedDirectives) -> Seq<DirectiveView>;

/// What parsed input values say.
pub uninterp spec fn input_values_held(vs: ParsedInputValues) -> Seq<InputValueView>;

/// What parsed fields say.
pub uninterp spec fn fields_held(fs: ParsedFields) -> Seq<FieldView>;

/// What the parsed values of an enum type say.
pub uninterp spec fn enum_values_held(vs: ParsedEnumValues) -> Seq<EnumValueView>;

/// What a parsed definition says.
pub uninterp spec fn definition_held(d: ParsedDefinition) -> DefinitionView;

/// What is directly inside a parsed type.
pub enum TypeParts {
    Named(String),
    List(ParsedType),
    NonNull(ParsedType),
}

/// Tells the variants of `graphql_parser::schema::Type` apart and hands out the
/// field of each.
#[verifier::external_body]
fn type_parts(t: ParsedType) -> (r: TypeParts)
    ensures
        type_held(t) == match r {
            TypeParts::Named(name) => TypeView::NamedType(name@),
            TypeParts::List(inner) => TypeView::ListType(Box::new(type_held(inner))),
            TypeParts::NonNull(inner) => TypeView::NonNullType(Box::new(type_held(inner))),
        },
{
    match t.0 {
        AnyType::NamedType(name) => TypeParts::Named(name),
        AnyType::ListType(inner) => TypeParts::List(ParsedType(*inner)),
        AnyType::NonNullType(inner) => TypeParts::NonNull(ParsedType(*inner)),
    }
}

/// What is directly inside a parsed value.
pub enum ValueParts {
    Variable(String),
    Int(i64),
    Float(u64),
    String(String),
    Boolean(bool),
    Null,
    Enum(String),
    List(Vec<ParsedValue>),
    Object(Vec<(String, ParsedValue)>),
}

/// What named values say.
pub open spec fn entries_held(entries: Seq<(String, ParsedValue)>) -> Seq<(Seq<char>, ValueView)> {
    entries.map_values(|e: (String, ParsedValue)| (e.0@, value_held(e.1)))
}

/// Tells the variants of `graphql_parser::schema::Value` apart and hands out the
/// field of each. An integer is handed out by `Number::as_i64`, which gives one
/// for every `Number`, and a floating point number by its bits. The entries of
/// an object come out of its `BTreeMap`, which walks them in the order of their
/// keys and holds none twice; the order of strings is that of their code points.
#[verifier::external_body]
fn value_parts(v: ParsedValue) -> (r: ValueParts)
    ensures
        value_held(v) == match r {
            ValueParts::Variable(name) => ValueView::Variable(name@),
            ValueParts::Int(n) => ValueView::Int(n),
            ValueParts::Float(bits) => ValueView::Float(bits),
            ValueParts::String(s) => ValueView::String(s@),
            ValueParts::Boolean(b) => ValueView::Boolean(b),
            ValueParts::Null => ValueView::Null,
            ValueParts::Enum(name) => ValueView::Enum(name@),
            ValueParts::List(items) => ValueView::List(
                items@.map_values(|x: ParsedValue| value_held(x)),
            ),
            ValueParts::Object(entries) => ValueView::Object(entries_held(entries@)),
        },
        r matches ValueParts::Object(entries) ==> ast::keys_ascend(entries_held(entries@)),
{
    match v.0 {
        AnyValue::Variable(name) => ValueParts::Variable(name),
        AnyValue::Int(n) => ValueParts::Int(n.as_i64().unwrap()),
        AnyValue::Float(x) => ValueParts::Float(x.to_bits()),
        AnyValue::String(s) => ValueParts::String(s),
        AnyValue::Boolean(b) => ValueParts::Boolean(b),
        AnyValue::Null => ValueParts::Null,
        AnyValue::Enum(name) => ValueParts::Enum(name),
        AnyValue::List(items) => ValueParts::List(items.into_iter().map(ParsedValue).collect()),
        AnyValue::Object(entries) => ValueParts::Object(
            entries.into_iter().map(|(name, value)| (name, ParsedValue(value))).collect(),
        ),
    }
}

/// What is directly inside a parsed directive.
pub struct DirectiveParts {
    pub position: Pos,
    pub name: String,
    pub arguments: Vec<(String, ParsedValue)>,
}

/// What the parts of a directive say.
pub open spec fn directive_said(d: DirectiveParts) -> DirectiveView {
    DirectiveView { position: d.position, name: d.name@, arguments: entries_held(d.arguments@) }
}

/// Hands out the fields of each `graphql_parser::schema::Directive`.
#[verifier::external_body]
fn directive_parts(ds: ParsedDirectives) -> (r: Vec<DirectiveParts>)
    ensures
        directives_held(ds) == r@.map_values(|d: DirectiveParts| directive_said(d)),
{
    ds.0.into_iter().map(|d| DirectiveParts {
        position: Pos { line: d.position.line, column: d.position.column },
        name: d.name,
        arguments: d.arguments.into_iter().map(|(name, value)| (name, ParsedValue(value))).collect(),
    }).collect()
}

/// What is directly inside a parsed input value.
pub struct InputValueParts {
    pub position: Pos,
    pub description: Option<String>,
    pub name: String,
    pub value_type: ParsedType,
    pub default_value: Option<ParsedValue>,
    pub directives: ParsedDirectives,
}

/// What the parts of an input value say.
pub open spec fn input_value_said(v: InputValueParts) -> InputValueView {
    InputValueView {
        position: v.position,
        description: seqs::opt(v.description),
        name: v.name@,
        value_type: type_held(v.value_type),
        default_value: match v.default_value {
            Some(x) => Some(value_held(x)),
            None => None,
        },
        directives: directives_held(v.directives),
    }
}

/// Hands out the fields of each `graphql_parser::schema::InputValue`.
#[verifier::external_body]
fn input_value_parts(vs: ParsedInputValues) -> (r: Vec<InputValueParts>)
    ensures
        input_values_held(vs) == r@.map_values(|v: InputValueParts| input_value_said(v)),
{
    vs.0.into_iter().map(|v| InputValueParts {
        position: Pos { line: v.position.line, column: v.position.column },
        description: v.description,
        name: v.name,
        value_type: ParsedType(v.value_type),
        default_value: v.default_value.map(ParsedValue),
        directives: ParsedDirectives(v.directives),
    }).collect()
}

/// What is directly inside a parsed field, and the field as it is printed.
pub struct FieldParts {
    pub text: String,
    pub position: Pos,
    pub description: Option<String>,
    pub name: String,
    pub arguments: ParsedInputValues,
    pub field_type: ParsedType,
    pub directives: ParsedDirectives,
}

/// What the parts of a field say.
pub open spec fn field_said(f: FieldParts) -> FieldView {
    FieldView {
        position: f.position,
        description: seqs::opt(f.description),
        name: f.name@,
        arguments: input_values_held(f.arguments),
        field_type: type_held(f.field_type),
        directives: directives_held(f.directives),
        text: f.text@,
    }
}

/// What `graphql_parser` prints of a field with a description, a name, arguments,
/// a type and directives.
pub uninterp spec fn printed_field(
    description: Option<Seq<char>>,
    name: Seq<char>,
    arguments: Seq<InputValueView>,
    field_type: TypeView,
    directives: Seq<DirectiveView>,
) -> Seq<char>;

/// Whether the text of a field is what `graphql_parser` prints of it.
pub open spec fn text_fits(f: FieldView) -> bool {
    f.text == printed_field(f.description, f.name, f.arguments, f.field_type, f.directives)
}

/// Whether the text of each field of a list fits.
pub open spec fn field_texts_fit(fields: Seq<FieldView>) -> bool {
    forall|i: int| 0 <= i < fields.len() ==> text_fits(#[trigger] fields[i])
}

/// Whether the text of each field fits, if a definition is that of an object type
/// or an interface, or extends one.
pub open spec fn definition_texts_fit(d: DefinitionView) -> bool {
    match d {
        DefinitionView::TypeDefinition(TypeDefinitionView::Object(t)) => field_texts_fit(t.fields),
        DefinitionView::TypeDefinition(TypeDefinitionView::Interface(t)) => field_texts_fit(
            t.fields,
        ),
        DefinitionView::TypeExtension(TypeExtensionView::Object(t)) => field_texts_fit(t.fields),
        DefinitionView::TypeExtension(TypeExtensionView::Interface(t)) => field_texts_fit(t.fields),
        _ => true,
    }
}

/// Whether the text of each field of the object types and interfaces of a document
/// fits.
pub open spec fn texts_fit(doc: Seq<DefinitionView>) -> bool {
    forall|i: int| 0 <= i < doc.len() ==> definition_texts_fit(#[trigger] doc[i])
}

/// Hands out the fields of each `graphql_parser::schema::Field`, and the text that
/// its `Display` writes, which looks at them alone and not at the position.
#[verifier::external_body]
fn field_parts(fs: ParsedFields) -> (r: Vec<FieldParts>)
    ensures
        fields_held(fs) == r@.map_values(|f: FieldParts| field_said(f)),
        forall|i: int|
            0 <= i < r@.len() ==> (#[trigger] r@[i]).text@ == printed_field(
                seqs::opt(r@[i].description),
                r@[i].name@,
                input_values_held(r@[i].arguments),
                type_held(r@[i].field_type),
                directives_held(r@[i].directives),
            ),
{
    fs.0.into_iter().map(|f| FieldParts {
        text: f.to_string(),
        position: Pos { line: f.position.line, column: f.position.column },
        description: f.description,
        name: f.name,
        arguments: ParsedInputValues(f.arguments),
        field_type: ParsedType(f.field_type),
        directives: ParsedDirectives(f.directives),
    }).collect()
}

/// What is directly inside a parsed value of an enum type.
pub struct EnumValueParts {
    pub position: Pos,
    pub description: Option<String>,
    pub name: String,
    pub directives: ParsedDirectives,
}

/// What the parts of a value of an enum type say.
pub open spec fn enum_value_said(v: EnumValueParts) -> EnumValueView {
    EnumValueView {
        position: v.position,
        description: seqs::opt(v.description),
        name: v.name@,
        directives: directives_held(v.directives),
    }
}

/// Hands out the fields of each `graphql_parser::schema::EnumValue`.
#[verifier::external_body]
fn enum_value_parts(vs: ParsedEnumValues) -> (r: Vec<EnumValueParts>)
    ensures
        enum_values_held(vs) == r@.map_values(|v: EnumValueParts| enum_value_said(v)),
{
    vs.0.into_iter().map(|v| EnumValueParts {
        position: Pos { line: v.position.line, column: v.position.column },
        description: v.description,
        name: v.name,
        directives: ParsedDirectives(v.directives),
    }).collect()
}

/// What is directly inside a parsed definition.
pub enum DefinitionParts {
    Object(Pos, Option<String>, String, Vec<String>, ParsedDirectives, ParsedFields),
    Interface(Pos, Option<String>, String, Vec<String>, ParsedDirectives, ParsedFields),
    InputObject(Pos, Option<String>, String, ParsedDirectives, ParsedInputValues),
    Scalar(Pos, Option<String>, String, ParsedDirectives),
    Union(Pos, Option<String>, String, ParsedDirectives, Vec<String>),
    Enum(Pos, Option<String>, String, ParsedDirectives, ParsedEnumValues),
    SchemaDefinition(Pos, ParsedDirectives, Option<String>, Option<String>, Option<String>),
    DirectiveDefinition(Pos, Option<String>, String, ParsedInputValues, bool, Vec<String>),
    ExtendedObject(Pos, String, Vec<String>, ParsedDirectives, ParsedFields),
    ExtendedInterface(Pos, String, Vec<String>, ParsedDirectives, ParsedFields),
    ExtendedScalar(Pos, String, ParsedDirectives),
    ExtendedUnion(Pos, String, ParsedDirectives, Vec<String>),
    ExtendedEnum(Pos, String, ParsedDirectives, ParsedEnumValues),
    ExtendedInputObject(Pos, String, ParsedDirectives, ParsedInputValues),
    Unopened(ParsedDefinition),
}

/// What the parts of a definition say.
pub open spec fn definition_said(p: DefinitionParts) -> DefinitionView {
    match p {
        DefinitionParts::Object(position, description, name, implements, directives, fields) =>
            DefinitionView::TypeDefinition(TypeDefinitionView::Object(ObjectTypeView {
                position,
                description: seqs::opt(description),
                name: name@,
                implements_interfaces: seqs::deep(implements@),
                directives: directives_held(directives),
                fields: fields_held(fields),
            })),
        DefinitionParts::Interface(position, description, name, implements, directives, fields) =>
            DefinitionView::TypeDefinition(TypeDefinitionView::Interface(InterfaceTypeView {
                position,
                description: seqs::opt(description),
                name: name@,
                implements_interfaces: seqs::deep(implements@),
                directives: directives_held(directives),
                fields: fields_held(fields),
            })),
        DefinitionParts::InputObject(position, description, name, directives, fields) =>
            DefinitionView::TypeDefinition(TypeDefinitionView::InputObject(InputObjectTypeView {
                position,
                description: seqs::opt(description),
                name: name@,
                directives: directives_held(directives),
                fields: input_values_held(fields),
            })),
        DefinitionParts::Scalar(position, description, name, directives) =>
            DefinitionView::TypeDefinition(TypeDefinitionView::Scalar(ScalarTypeView {
                position,
                description: seqs::opt(description),
                name: name@,
                directives: directives_held(directives),
            })),
        DefinitionParts::Union(position, description, name, directives, types) =>
            DefinitionView::TypeDefinition(TypeDefinitionView::Union(UnionTypeView {
                position,
                description: seqs::opt(description),
                name: name@,
                directives: directives_held(directives),
                types: seqs::deep(types@),
            })),
        DefinitionParts::Enum(position, description, name, directives, values) =>
            DefinitionView::TypeDefinition(TypeDefinitionView::Enum(EnumTypeView {
                position,
                description: seqs::opt(description),
                name: name@,
                directives: directives_held(directives),
                values: enum_values_held(values),
            })),
        DefinitionParts::SchemaDefinition(position, directives, query, mutation, subscription) =>
            DefinitionView::SchemaDefinition(SchemaDefinitionView {
                position,
                directives: directives_held(directives),
                query: seqs::opt(query),
                mutation: seqs::opt(mutation),
                subscription: seqs::opt(subscription),
            }),
        DefinitionParts::DirectiveDefinition(
            position,
            description,
            name,
            arguments,
            repeatable,
            locations,
        ) => DefinitionView::DirectiveDefinition(DirectiveDefinitionView {
            position,
            description: seqs::opt(description),
            name: name@,
            arguments: input_values_held(arguments),
            repeatable,
            locations: seqs::deep(locations@),
        }),
        DefinitionParts::ExtendedObject(position, name, implements, directives, fields) =>
            DefinitionView::TypeExtension(TypeExtensionView::Object(ObjectTypeExtensionView {
                position,
                name: name@,
                implements_interfaces: seqs::deep(implements@),
                directives: directives_held(directives),
                fields: fields_held(fields),
            })),
        DefinitionParts::ExtendedInterface(position, name, implements, directives, fields) =>
            DefinitionView::TypeExtension(TypeExtensionView::Interface(InterfaceTypeExtensionView {
                position,
                name: name@,
                implements_interfaces: seqs::deep(implements@),
                directives: directives_held(directives),
                fields: fields_held(fields),
            })),
        DefinitionParts::ExtendedScalar(position, name, directives) =>
            DefinitionView::TypeExtension(TypeExtensionView::Scalar(ScalarTypeExtensionView {
                position,
                name: name@,
                directives: directives_held(directives),
            })),
        DefinitionParts::ExtendedUnion(position, name, directives, types) =>
            DefinitionView::TypeExtension(TypeExtensionView::Union(UnionTypeExtensionView {
                position,
                name: name@,
                directives: directives_held(directives),
                types: seqs::deep(types@),
            })),
        DefinitionParts::ExtendedEnum(position, name, directives, values) =>
            DefinitionView::TypeExtension(TypeExtensionView::Enum(EnumTypeExtensionView {
                position,
                name: name@,
                directives: directives_held(directives),
                values: enum_values_held(values),
            })),
        DefinitionParts::ExtendedInputObject(position, name, directives, fields) =>
            DefinitionView::TypeExtension(TypeExtensionView::InputObject(InputObjectTypeExtensionView {
                position,
                name: name@,
                directives: directives_held(directives),
                fields: input_values_held(fields),
            })),
        DefinitionParts::Unopened(d) => definition_held(d),
    }
}

/// Whether a definition is that of an object type, an interface or a schema.
pub open spec fn is_composite(d: DefinitionView) -> bool {
    ||| d is SchemaDefinition
    ||| d matches DefinitionView::TypeDefinition(TypeDefinitionView::Object(_))
    ||| d matches DefinitionView::TypeDefinition(TypeDefinitionView::Interface(_))
}

/// Whether a definition is that of a scalar, a union or an input object type.
pub open spec fn is_plain(d: DefinitionView) -> bool {
    ||| d matches DefinitionView::TypeDefinition(TypeDefinitionView::Scalar(_))
    ||| d matches DefinitionView::TypeDefinition(TypeDefinitionView::Union(_))
    ||| d matches DefinitionView::TypeDefinition(TypeDefinitionView::InputObject(_))
}

/// Tells the object types, interfaces and definitions of schemas among the variants
/// of `graphql_parser::schema::Definition` from the others and hands out the fields
/// of each.
#[verifier::external_body]
fn open_composite(d: ParsedDefinition) -> (r: DefinitionParts)
    ensures
        definition_held(d) == definition_said(r),
        r is Unopened ==> !is_composite(definition_held(d)),
{
    match d.0 {
        AnyDefinition::TypeDefinition(AnyTypeDefinition::Object(t)) => DefinitionParts::Object(
            Pos { line: t.position.line, column: t.position.column }, t.description, t.name,
            t.implements_interfaces, ParsedDirectives(t.directives), ParsedFields(t.fields),
        ),
        AnyDefinition::TypeDefinition(AnyTypeDefinition::Interface(t)) => DefinitionParts::Interface(
            Pos { line: t.position.line, column: t.position.column }, t.description, t.name,
            t.implements_interfaces, ParsedDirectives(t.directives), ParsedFields(t.fields),
        ),
        AnyDefinition::SchemaDefinition(t) => DefinitionParts::SchemaDefinition(
            Pos { line: t.position.line, column: t.position.column },
            ParsedDirectives(t.directives), t.query, t.mutation, t.subscription),
        other => DefinitionParts::Unopened(ParsedDefinition(other)),
    }
}

/// Tells the scalars, unions and input object types among the variants of
/// `graphql_parser::schema::Definition` from the others and hands out the fields
/// of each.
#[verifier::external_body]
fn open_plain(d: ParsedDefinition) -> (r: DefinitionParts)
    ensures
        definition_held(d) == definition_said(r),
        r is Unopened ==> !is_plain(definition_held(d)),
{
    match d.0 {
        AnyDefinition::TypeDefinition(AnyTypeDefinition::Scalar(t)) => DefinitionParts::Scalar(
            Pos { line: t.position.line, column: t.position.column },
            t.description, t.name, ParsedDirectives(t.directives)),
        AnyDefinition::TypeDefinition(AnyTypeDefinition::Union(t)) => DefinitionParts::Union(
            Pos { line: t.position.line, column: t.position.column },
            t.description, t.name, ParsedDirectives(t.directives), t.types),
        AnyDefinition::TypeDefinition(AnyTypeDefinition::InputObject(t)) => DefinitionParts::InputObject(
            Pos { line: t.position.line, column: t.position.column },
            t.description, t.name, ParsedDirectives(t.directives), ParsedInputValues(t.fields)),
        other => DefinitionParts::Unopened(ParsedDefinition(other)),
    }
}

/// Whether a definition is that of an enum type or of a directive.
pub open spec fn is_other(d: DefinitionView) -> bool {
    ||| d matches DefinitionView::TypeDefinition(TypeDefinitionView::Enum(_))
    ||| d is DirectiveDefinition
}

/// Tells the enum types and the definitions of directives among the variants of
/// `graphql_parser::schema::Definition` from the others and hands out the fields of
/// each; the locations of a directive by `DirectiveLocation::as_str`.
#[verifier::external_body]
fn open_other(d: ParsedDefinition) -> (r: DefinitionParts)
    ensures
        definition_held(d) == definition_said(r),
        r is Unopened ==> !is_other(definition_held(d)),
{
    match d.0 {
        AnyDefinition::TypeDefinition(AnyTypeDefinition::Enum(t)) => DefinitionParts::Enum(
            Pos { line: t.position.line, column: t.position.column },
            t.description, t.name, ParsedDirectives(t.directives), ParsedEnumValues(t.values)),
        AnyDefinition::DirectiveDefinition(t) => DefinitionParts::DirectiveDefinition(
            Pos { line: t.position.line, column: t.position.column },
            t.description, t.name, ParsedInputValues(t.arguments), t.repeatable,
            t.locations.into_iter().map(|l| l.as_str().to_owned()).collect()),
        other => DefinitionParts::Unopened(ParsedDefinition(other)),
    }
}

/// Whether a definition extends an object type, an interface or an input object
/// type.
pub open spec fn extends_fields(d: DefinitionView) -> bool {
    ||| d matches DefinitionView::TypeExtension(TypeExtensionView::Object(_))
    ||| d matches DefinitionView::TypeExtension(TypeExtensionView::Interface(_))
    ||| d matches DefinitionView::TypeExtension(TypeExtensionView::InputObject(_))
}

/// Tells the extensions of object types, interfaces and input object types among
/// the variants of `graphql_parser::schema::Definition` from the others and hands
/// out the fields of each.
#[verifier::external_body]
fn open_extended_fields(d: ParsedDefinition) -> (r: DefinitionParts)
    ensures
        definition_held(d) == definition_said(r),
        r is Unopened ==> !extends_fields(definition_held(d)),
{
    match d.0 {
        AnyDefinition::TypeExtension(AnyTypeExtension::Object(t)) => DefinitionParts::ExtendedObject(
            Pos { line: t.position.line, column: t.position.column }, t.name,
            t.implements_interfaces, ParsedDirectives(t.directives), ParsedFields(t.fields)),
        AnyDefinition::TypeExtension(AnyTypeExtension::Interface(t)) =>
            DefinitionParts::ExtendedInterface(
            Pos { line: t.position.line, column: t.position.column }, t.name,
            t.implements_interfaces, ParsedDirectives(t.directives), ParsedFields(t.fields)),
        AnyDefinition::TypeExtension(AnyTypeExtension::InputObject(t)) =>
            DefinitionParts::ExtendedInputObject(
            Pos { line: t.position.line, column: t.position.column }, t.name,
            ParsedDirectives(t.directives), ParsedInputValues(t.fields)),
        other => DefinitionParts::Unopened(ParsedDefinition(other)),
    }
}

/// Tells the extensions of scalars, unions and enum types among the variants of
/// `graphql_parser::schema::Definition` from the others and hands out the fields
/// of each.
#[verifier::external_body]
fn open_extended_rest(d: ParsedDefinition) -> (r: DefinitionParts)
    ensures
        definition_held(d) == definition_said(r),
        r is Unopened ==> definition_held(d) !is TypeExtension || extends_fields(
            definition_held(d),
        ),
{
    match d.0 {
        AnyDefinition::TypeExtension(AnyTypeExtension::Scalar(t)) => DefinitionParts::ExtendedScalar(
            Pos { line: t.position.line, column: t.position.column }, t.name,
            ParsedDirectives(t.directives)),
        AnyDefinition::TypeExtension(AnyTypeExtension::Union(t)) => DefinitionParts::ExtendedUnion(
            Pos { line: t.position.line, column: t.position.column }, t.name,
            ParsedDirectives(t.directives), t.types),
        AnyDefinition::TypeExtension(AnyTypeExtension::Enum(t)) => DefinitionParts::ExtendedEnum(
            Pos { line: t.position.line, column: t.position.column }, t.name,
            ParsedDirectives(t.directives), ParsedEnumValues(t.values)),
        other => DefinitionParts::Unopened(ParsedDefinition(other)),
    }
}

/// What `graphql_parser` makes of a text: the definitions of the document, or
/// the text of the error.
pub uninterp spec fn parsed_schema(raw: Seq<char>) -> Result<Seq<DefinitionView>, Seq<char>>;

/// Calls `graphql_parser::parse_schema`; the result is a function of the text
/// alone. An error is handed out as the text that its `Display` writes. To take
/// the common indentation off a block string the parser cuts its lines at a byte
/// offset, which panics inside a character of several bytes; so it must not fall
/// inside one in any block string that the parser can meet.
#[verifier::external_body]
fn parse_definitions(raw: &str) -> (r: Result<Vec<ParsedDefinition>, String>)
    requires
        block_strings::block_strings_safe(raw@),
    ensures
        parsed_schema(raw@) == match r {
            Ok(ds) => Ok(ds@.map_values(|d: ParsedDefinition| definition_held(d))),
            Err(message) => Err(message@),
        },
{
    match graphql_parser::parse_schema::<String>(raw) {
        Ok(doc) => Ok(doc.into_static().definitions.into_iter().map(ParsedDefinition).collect()),
        Err(e) => Err(e.to_string()),
    }
}

/// The type that a parsed type says.
fn build_type(t: ParsedType) -> (r: Type)
    ensures
        r@ == type_held(t),
    decreases type_held(t),
{
    match type_parts(t) {
        TypeParts::Named(name) => Type::NamedType(name),
        TypeParts::List(inner) => {
            assert(*type_held(t)->ListType_0 == type_held(inner));
            Type::ListType(Box::new(build_type(inner)))
        },
        TypeParts::NonNull(inner) => {
            assert(*type_held(t)->NonNullType_0 == type_held(inner));
            Type::NonNullType(Box::new(build_type(inner)))
        },
    }
}

/// The value that a parsed value says.
fn build_value(v: ParsedValue) -> (r: Value)
    ensures
        r@ == value_held(v),
    decreases value_held(v),
{
    match value_parts(v) {
        ValueParts::Variable(name) => Value::Variable(name),
        ValueParts::Int(n) => Value::Int(n),
        ValueParts::Float(bits) => Value::Float(Float { bits }),
        ValueParts::String(s) => Value::String(s),
        ValueParts::Boolean(b) => Value::Boolean(b),
        ValueParts::Null => Value::Null,
        ValueParts::Enum(name) => Value::Enum(name),
        ValueParts::List(items) => {
            let ghost all = value_held(v)->List_0;
            let mut out: Vec<Value> = Vec::new();
            for x in it: items
                invariant
                    value_held(v) == ValueView::List(all),
                    all == it.seq().map_values(|x: ParsedValue| value_held(x)),
                    seqs::deep(out@) == all.take(it.index()),
            {
                assert(value_held(v)->List_0[it.index()] == value_held(x));
                out.push(build_value(x));
                proof {
                    seqs::lemma_take_step(all, it.index());
                }
            }
            let r = Value::List(out);
            proof {
                seqs::lemma_take_all(all);
                ast::lemma_list_view(r);
            }
            r
        },
        ValueParts::Object(entries) => {
            let ghost all = value_held(v)->Object_0;
            let mut out: Vec<(String, Value)> = Vec::new();
            for e in it: entries
                invariant
                    value_held(v) == ValueView::Object(all),
                    ast::keys_ascend(all),
                    all == entries_held(it.seq()),
                    seqs::deep(out@) == all.take(it.index()),
            {
                assert(value_held(v)->Object_0[it.index()].1 == value_held(e.1));
                out.push((e.0, build_value(e.1)));
                proof {
                    seqs::lemma_take_step(all, it.index());
                }
            }
            proof {
                seqs::lemma_take_all(all);
            }
            Value::Object(Entries::from_ascending(out))
        },
    }
}

/// The named values that parsed ones say.
fn build_entries(entries: Vec<(String, ParsedValue)>) -> (r: Vec<(String, Value)>)
    ensures
        seqs::deep(r@) == entries_held(entries@),
{
    let ghost all = entries_held(entries@);
    let mut out: Vec<(String, Value)> = Vec::new();
    for e in it: entries
        invariant
            all == entries_held(it.seq()),
            seqs::deep(out@) == all.take(it.index()),
    {
        out.push((e.0, build_value(e.1)));
        proof {
            seqs::lemma_take_step(all, it.index());
        }
    }
    proof {
        seqs::lemma_take_all(all);
    }
    out
}

/// The directives that parsed ones say.
fn build_directives(ds: ParsedDirectives) -> (r: Vec<Directive>)
    ensures
        seqs::deep(r@) == directives_held(ds),
{
    let ghost all = directives_held(ds);
    let mut out: Vec<Directive> = Vec::new();
    for p in it: directive_parts(ds)
        invariant
            all == it.seq().map_values(|p: DirectiveParts| directive_said(p)),
            seqs::deep(out@) == all.take(it.index()),
    {
        let d = Directive { position: p.position, name: p.name, arguments: build_entries(p.arguments) };
        out.push(d);
        proof {
            seqs::lemma_take_step(all, it.index());
        }
    }
    proof {
        seqs::lemma_take_all(all);
    }
    out
}

/// The input values that parsed ones say.
fn build_input_values(vs: ParsedInputValues) -> (r: Vec<InputValue>)
    ensures
        seqs::deep(r@) == input_values_held(vs),
{
    let ghost all = input_values_held(vs);
    let mut out: Vec<InputValue> = Vec::new();
    for p in it: input_value_parts(vs)
        invariant
            all == it.seq().map_values(|p: InputValueParts| input_value_said(p)),
            seqs::deep(out@) == all.take(it.index()),
    {
        let v = InputValue {
            position: p.position,
            description: p.description,
            name: p.name,
            value_type: build_type(p.value_type),
            default_value: match p.default_value {
                Some(x) => Some(build_value(x)),
                None => None,
            },
            directives: build_directives(p.directives),
        };
        assert(v@ == input_value_said(p));
        out.push(v);
        proof {
            seqs::lemma_take_step(all, it.index());
        }
    }
    proof {
        seqs::lemma_take_all(all);
    }
    out
}

/// The fields that parsed ones say.
fn build_fields(fs: ParsedFields) -> (r: Vec<Field>)
    ensures
        seqs::deep(r@) == fields_held(fs),
        field_texts_fit(seqs::deep(r@)),
{
    let ghost all = fields_held(fs);
    let parts = field_parts(fs);
    assert forall|i: int| 0 <= i < all.len() implies text_fits(#[trigger] all[i]) by {
        assert(all[i] == field_said(parts@[i]));
    }
    let mut out: Vec<Field> = Vec::new();
    for p in it: parts
        invariant
            all == it.seq().map_values(|p: FieldParts| field_said(p)),
            seqs::deep(out@) == all.take(it.index()),
            field_texts_fit(all),
    {
        let f = Field {
            position: p.position,
            description: p.description,
            name: p.name,
            arguments: build_input_values(p.arguments),
            field_type: build_type(p.field_type),
            directives: build_directives(p.directives),
            text: p.text,
        };
        out.push(f);
        proof {
            seqs::lemma_take_step(all, it.index());
        }
    }
    proof {
        seqs::lemma_take_all(all);
    }
    out
}

/// The values of an enum type that parsed ones say.
fn build_enum_values(vs: ParsedEnumValues) -> (r: Vec<EnumValue>)
    ensures
        seqs::deep(r@) == enum_values_held(vs),
{
    let ghost all = enum_values_held(vs);
    let mut out: Vec<EnumValue> = Vec::new();
    for p in it: enum_value_parts(vs)
        invariant
            all == it.seq().map_values(|p: EnumValueParts| enum_value_said(p)),
            seqs::deep(out@) == all.take(it.index()),
    {
        let v = EnumValue {
            position: p.position,
            description: p.description,
            name: p.name,
            directives: build_directives(p.directives),
        };
        out.push(v);
        proof {
            seqs::lemma_take_step(all, it.index());
        }
    }
    proof {
        seqs::lemma_take_all(all);
    }
    out
}

/// The definition that opened parts say.
fn build_opened(p: DefinitionParts) -> (r: Definition)
    requires
        !(p is Unopened),
    ensures
        r@ == definition_said(p),
        definition_texts_fit(r@),
{
    match p {
        DefinitionParts::Object(position, description, name, implements_interfaces, directives, fields) =>
            Definition::TypeDefinition(TypeDefinition::Object(ObjectType {
                position,
                description,
                name,
                implements_interfaces,
                directives: build_directives(directives),
                fields: build_fields(fields),
            })),
        DefinitionParts::Interface(position, description, name, implements_interfaces, directives, fields) =>
            Definition::TypeDefinition(TypeDefinition::Interface(InterfaceType {
                position,
                description,
                name,
                implements_interfaces,
                directives: build_directives(directives),
                fields: build_fields(fields),
            })),
        DefinitionParts::InputObject(position, description, name, directives, fields) =>
            Definition::TypeDefinition(TypeDefinition::InputObject(InputObjectType {
                position,
                description,
                name,
                directives: build_directives(directives),
                fields: build_input_values(fields),
            })),
        DefinitionParts::Scalar(position, description, name, directives) =>
            Definition::TypeDefinition(TypeDefinition::Scalar(ScalarType {
                position,
                description,
                name,
                directives: build_directives(directives),
            })),
        DefinitionParts::Union(position, description, name, directives, types) =>
            Definition::TypeDefinition(TypeDefinition::Union(UnionType {
                position,
                description,
                name,
                directives: build_directives(directives),
                types,
            })),
        DefinitionParts::Enum(position, description, name, directives, values) =>
            Definition::TypeDefinition(TypeDefinition::Enum(EnumType {
                position,
                description,
                name,
                directives: build_directives(directives),
                values: build_enum_values(values),
            })),
        DefinitionParts::SchemaDefinition(position, directives, query, mutation, subscription) =>
            Definition::SchemaDefinition(SchemaDefinition {
                position,
                directives: build_directives(directives),
                query,
                mutation,
                subscription,
            }),
        DefinitionParts::DirectiveDefinition(
            position,
            description,
            name,
            arguments,
            repeatable,
            locations,
        ) => Definition::DirectiveDefinition(DirectiveDefinition {
            position,
            description,
            name,
            arguments: build_input_values(arguments),
            repeatable,
            locations,
        }),
        DefinitionParts::ExtendedObject(position, name, implements, directives, fields) =>
            Definition::TypeExtension(TypeExtension::Object(ObjectTypeExtension {
                position,
                name,
                implements_interfaces: implements,
                directives: build_directives(directives),
                fields: build_fields(fields),
            })),
        DefinitionParts::ExtendedInterface(position, name, implements, directives, fields) =>
            Definition::TypeExtension(TypeExtension::Interface(InterfaceTypeExtension {
                position,
                name,
                implements_interfaces: implements,
                directives: build_directives(directives),
                fields: build_fields(fields),
            })),
        DefinitionParts::ExtendedScalar(position, name, directives) =>
            Definition::TypeExtension(TypeExtension::Scalar(ScalarTypeExtension {
                position,
                name,
                directives: build_directives(directives),
            })),
        DefinitionParts::ExtendedUnion(position, name, directives, types) =>
            Definition::TypeExtension(TypeExtension::Union(UnionTypeExtension {
                position,
                name,
                directives: build_directives(directives),
                types,
            })),
        DefinitionParts::ExtendedEnum(position, name, directives, values) =>
            Definition::TypeExtension(TypeExtension::Enum(EnumTypeExtension {
                position,
                name,
                directives: build_directives(directives),
                values: build_enum_values(values),
            })),
        DefinitionParts::ExtendedInputObject(position, name, directives, fields) =>
            Definition::TypeExtension(TypeExtension::InputObject(InputObjectTypeExtension {
                position,
                name,
                directives: build_directives(directives),
                fields: build_input_values(fields),
            })),
        DefinitionParts::Unopened(_) => vstd::pervasive::unreached(),
    }
}

/// The definition that a parsed one says.
fn build_definition(d: ParsedDefinition) -> (r: Definition)
    ensures
        r@ == definition_held(d),
        definition_texts_fit(r@),
{
    match open_composite(d) {
        DefinitionParts::Unopened(rest) => match open_plain(rest) {
            DefinitionParts::Unopened(rest) => match open_other(rest) {
                DefinitionParts::Unopened(rest) => match open_extended_fields(rest) {
                    DefinitionParts::Unopened(rest) => build_opened(open_extended_rest(rest)),
                    opened => build_opened(opened),
                },
                opened => build_opened(opened),
            },
            opened => build_opened(opened),
        },
        opened => build_opened(opened),
    }
}

/// Reads a document of the schema language. The text of each of its fields is what
/// `graphql_parser` prints of it.
pub fn parse_schema(raw: &str) -> (r: Result<Document, String>)
    requires
        block_strings::block_strings_safe(raw@),
    ensures
        parsed_schema(raw@) == match r {
            Ok(doc) => Ok(doc@),
            Err(message) => Err(message@),
        },
        parsed_schema(raw@) matches Ok(doc) ==> texts_fit(doc),
{
    match parse_definitions(raw) {
        Err(message) => Err(message),
        Ok(ds) => {
            let ghost all = parsed_schema(raw@)->Ok_0;
            let mut definitions: Vec<Definition> = Vec::new();
            for d in it: ds
                invariant
                    all == it.seq().map_values(|d: ParsedDefinition| definition_held(d)),
                    seqs::deep(definitions@) == all.take(it.index()),
                    texts_fit(seqs::deep(definitions@)),
            {
                definitions.push(build_definition(d));
                proof {
                    seqs::lemma_take_step(all, it.index());
                }
            }
            proof {
                seqs::lemma_take_all(all);
            }
            Ok(Document { definitions })
        },
    }
}

} // verus!
