//! Validating the types and the fields of a document.
use vstd::prelude::*;
use vstd::string::*;
use crate::ast::{
    DefinitionView, DirectiveView, Document, EnumType, EnumTypeView, FieldView, InterfaceTypeView,
    ObjectType, ObjectTypeView,
};
use crate::document;
use crate::document::{SCHEMA_TYPE_NAME, TypeFieldsView, find_fields};
use crate::errors;
use crate::errors::{SchemaValidationError, SchemaValidationErrorView, Strings};
use crate::names::contains_name;
use crate::schema::Schema;
use crate::seqs;
use crate::store;
use crate::store::ValueType;
use crate::text::{join, same};
use crate::type_map::Groups;

verus! {

broadcast use crate::seqs::lemma_deep_push;

/// The name of an object type, if it lacks an `@entity` directive that it has to
/// have.
pub open spec fn lacks_entity() -> spec_fn(ObjectTypeView) -> Option<Seq<char>> {
    |t: ObjectTypeView|
        if document::directive(t.directives, "entity"@) is None && t.name != SCHEMA_TYPE_NAME@ {
            Some(t.name)
        } else {
            None
        }
}

/// The names of the object types without an `@entity` directive; `_Schema_` needs
/// none.
pub open spec fn types_without_entity(doc: Seq<DefinitionView>) -> Seq<Seq<char>> {
    seqs::collect(document::object_types(doc), lacks_entity())
}

/// Some object types have no `@entity` directive.
pub open spec fn schema_types_error(doc: Seq<DefinitionView>) -> Option<SchemaValidationErrorView> {
    let names = types_without_entity(doc);
    if names.len() > 0 {
        Some(SchemaValidationErrorView::EntityDirectivesMissing(names))
    } else {
        None
    }
}

impl Schema {
    /// Checks that each object type but `_Schema_` has an `@entity` directive.
    pub fn validate_schema_types(&self) -> (r: Result<(), SchemaValidationError>)
        ensures
            errors::problem(r) == schema_types_error(self.document@),
    {
        let objects = self.document.get_object_type_definitions();
        let ghost all = seqs::deep(objects@);
        let mut names: Vec<String> = Vec::new();
        let mut i: usize = 0;
        while i < objects.len()
            invariant
                i <= objects@.len(),
                all == seqs::deep(objects@),
                seqs::deep(names@) == seqs::collect(all.take(i as int), lacks_entity()),
            decreases objects@.len() - i,
        {
            proof {
                seqs::lemma_collect_step(all, lacks_entity(), i as int);
            }
            let t = objects[i];
            if t.find_directive("entity").is_none() && !same(t.name.as_str(), SCHEMA_TYPE_NAME) {
                names.push(t.name.clone());
            }
            i += 1;
        }
        proof {
            seqs::lemma_take_all(all);
        }
        if names.len() > 0 {
            Err(SchemaValidationError::EntityDirectivesMissing(Strings(names)))
        } else {
            Ok(())
        }
    }
}

/// The `_Schema_` type of a document.
pub open spec fn schema_type(doc: Seq<DefinitionView>) -> Option<ObjectTypeView> {
    document::object_type(doc, SCHEMA_TYPE_NAME@)
}

/// The `_Schema_` type has fields.
pub open spec fn schema_type_fields_error(doc: Seq<DefinitionView>) -> Option<
    SchemaValidationErrorView,
> {
    match schema_type(doc) {
        Some(t) => if t.fields.len() > 0 {
            Some(SchemaValidationErrorView::SchemaTypeWithFields)
        } else {
            None
        },
        None => None,
    }
}

impl Schema {
    /// Checks that the `_Schema_` type has no fields.
    pub fn validate_schema_type_has_no_fields(&self) -> (r: Result<(), SchemaValidationError>)
        ensures
            errors::problem(r) == schema_type_fields_error(self.document@),
    {
        match self.subgraph_schema_object_type() {
            Some(t) => if t.fields.len() > 0 {
                Err(SchemaValidationError::SchemaTypeWithFields)
            } else {
                Ok(())
            },
            None => Ok(()),
        }
    }
}

/// Whether a directive is other than `@fulltext`.
pub open spec fn not_fulltext() -> spec_fn(DirectiveView) -> bool {
    |d: DirectiveView| d.name != "fulltext"@
}

/// The `_Schema_` type has a directive other than `@fulltext`.
pub open spec fn schema_type_directives_error(doc: Seq<DefinitionView>) -> Option<
    SchemaValidationErrorView,
> {
    match schema_type(doc) {
        Some(t) => if seqs::some(t.directives, not_fulltext()) {
            Some(SchemaValidationErrorView::InvalidSchemaTypeDirectives)
        } else {
            None
        },
        None => None,
    }
}

impl Schema {
    /// Checks that the `_Schema_` type has no directives but `@fulltext`.
    pub fn validate_directives_on_schema_type(&self) -> (r: Result<(), SchemaValidationError>)
        ensures
            errors::problem(r) == schema_type_directives_error(self.document@),
    {
        let t = match self.subgraph_schema_object_type() {
            Some(t) => t,
            None => {
                return Ok(());
            },
        };
        let ghost all = seqs::deep(t.directives@);
        let mut i: usize = 0;
        while i < t.directives.len()
            invariant
                i <= t.directives@.len(),
                all == seqs::deep(t.directives@),
                schema_type(self.document@) == Some(t@),
                forall|j: int| 0 <= j < i ==> !#[trigger] not_fulltext()(all[j]),
            decreases t.directives@.len() - i,
        {
            if !same(t.directives[i].name.as_str(), "fulltext") {
                assert(not_fulltext()(all[i as int]));
                return Err(SchemaValidationError::InvalidSchemaTypeDirectives);
            }
            i += 1;
        }
        Ok(())
    }
}

/// The names that the built-in scalars and the root types have.
pub open spec fn builtin_names() -> Seq<Seq<char>> {
    seq![
        "Boolean"@,
        "ID"@,
        "Int"@,
        "BigDecimal"@,
        "String"@,
        "Bytes"@,
        "BigInt"@,
        "Query"@,
        "Subscription"@,
    ]
}

/// The names of the object types and then those of the interfaces.
pub open spec fn entity_names(doc: Seq<DefinitionView>) -> Seq<Seq<char>> {
    document::object_types(doc).map_values(|t: ObjectTypeView| t.name)
        + document::interface_types(doc).map_values(|t: InterfaceTypeView| t.name)
}

/// The names with an ending.
pub open spec fn with_suffix(names: Seq<Seq<char>>, suffix: Seq<char>) -> Seq<Seq<char>> {
    names.map_values(|name: Seq<char>| name + suffix)
}

/// The names that no type of a document may have: those of the built-in types,
/// and those of the types that are generated for its object types and interfaces.
pub open spec fn reserved_names(doc: Seq<DefinitionView>) -> Seq<Seq<char>> {
    builtin_names() + with_suffix(entity_names(doc), "_filter"@) + with_suffix(
        entity_names(doc),
        "_orderBy"@,
    )
}

/// A name, if a type of the document has it.
pub open spec fn used_in(doc: Seq<DefinitionView>) -> spec_fn(Seq<char>) -> Option<Seq<char>> {
    |name: Seq<char>|
        if document::named_type(doc, name) is Some {
            Some(name)
        } else {
            None
        }
}

/// The reserved names that types of the document have.
pub open spec fn used_reserved_names(doc: Seq<DefinitionView>) -> Seq<Seq<char>> {
    seqs::collect(reserved_names(doc), used_in(doc))
}

/// Some types have reserved names.
pub open spec fn reserved_types_error(doc: Seq<DefinitionView>) -> Option<
    SchemaValidationErrorView,
> {
    let names = used_reserved_names(doc);
    if names.len() > 0 {
        Some(SchemaValidationErrorView::UsageOfReservedTypes(names))
    } else {
        None
    }
}

/// The names of the built-in types.
fn list_builtin_names() -> (r: Vec<String>)
    ensures
        seqs::deep(r@) == builtin_names(),
{
    let mut r: Vec<String> = Vec::new();
    r.push("Boolean".to_owned());
    r.push("ID".to_owned());
    r.push("Int".to_owned());
    r.push("BigDecimal".to_owned());
    r.push("String".to_owned());
    r.push("Bytes".to_owned());
    r.push("BigInt".to_owned());
    r.push("Query".to_owned());
    r.push("Subscription".to_owned());
    assert(seqs::deep(r@) =~= builtin_names());
    r
}

/// The names of the object types and then those of the interfaces.
fn list_entity_names(doc: &Document) -> (r: Vec<String>)
    ensures
        seqs::deep(r@) == entity_names(doc@),
{
    let objects = doc.get_object_type_definitions();
    let interfaces = doc.get_interface_type_definitions();
    let ghost a = document::object_types(doc@).map_values(|t: ObjectTypeView| t.name);
    let ghost b = document::interface_types(doc@).map_values(|t: InterfaceTypeView| t.name);
    let mut r: Vec<String> = Vec::new();
    let mut i: usize = 0;
    while i < objects.len()
        invariant
            i <= objects@.len(),
            a == seqs::deep(objects@).map_values(|t: ObjectTypeView| t.name),
            seqs::deep(r@) =~= a.take(i as int),
        decreases objects@.len() - i,
    {
        r.push(objects[i].name.clone());
        i += 1;
    }
    let mut j: usize = 0;
    assert(seqs::deep(r@) =~= a);
    while j < interfaces.len()
        invariant
            j <= interfaces@.len(),
            b == seqs::deep(interfaces@).map_values(|t: InterfaceTypeView| t.name),
            seqs::deep(r@) =~= a + b.take(j as int),
        decreases interfaces@.len() - j,
    {
        r.push(interfaces[j].name.clone());
        j += 1;
    }
    assert(seqs::deep(r@) =~= a + b);
    r
}

/// Puts the names with an ending behind others.
fn push_with_suffix(r: &mut Vec<String>, names: &Vec<String>, suffix: &str)
    ensures
        seqs::deep(final(r)@) == seqs::deep(old(r)@) + with_suffix(
            seqs::deep(names@),
            suffix@,
        ),
{
    let ghost before = seqs::deep(r@);
    let ghost all = with_suffix(seqs::deep(names@), suffix@);
    let mut i: usize = 0;
    assert(before + all.take(0) =~= before);
    while i < names.len()
        invariant
            i <= names@.len(),
            all == with_suffix(seqs::deep(names@), suffix@),
            seqs::deep(r@) == before + all.take(i as int),
        decreases names@.len() - i,
    {
        let mut name = names[i].clone();
        name.append(suffix);
        assert(name@ == all[i as int]);
        r.push(name);
        assert(before + all.take(i + 1) =~= (before + all.take(i as int)).push(all[i as int]));
        i += 1;
    }
    assert(all.take(i as int) =~= all);
}

impl Schema {
    /// Checks that no type has a reserved name.
    pub fn validate_reserved_types_usage(&self) -> (r: Result<(), SchemaValidationError>)
        ensures
            errors::problem(r) == reserved_types_error(self.document@),
    {
        let names = list_entity_names(&self.document);
        let mut reserved = list_builtin_names();
        push_with_suffix(&mut reserved, &names, "_filter");
        push_with_suffix(&mut reserved, &names, "_orderBy");
        let ghost all = seqs::deep(reserved@);
        assert(all == reserved_names(self.document@));
        let mut used: Vec<String> = Vec::new();
        let mut i: usize = 0;
        while i < reserved.len()
            invariant
                i <= reserved@.len(),
                all == seqs::deep(reserved@),
                seqs::deep(used@) == seqs::collect(all.take(i as int), used_in(self.document@)),
            decreases reserved@.len() - i,
        {
            proof {
                seqs::lemma_collect_step(all, used_in(self.document@), i as int);
            }
            if self.document.get_named_type(reserved[i].as_str()).is_some() {
                used.push(reserved[i].clone());
            }
            i += 1;
        }
        proof {
            seqs::lemma_take_all(all);
        }
        if used.len() > 0 {
            Err(SchemaValidationError::UsageOfReservedTypes(Strings(used)))
        } else {
            Ok(())
        }
    }
}

/// The type of the id of an object type, if it has one; `ID` counts as `String`.
pub open spec fn id_type() -> spec_fn(ObjectTypeView) -> Option<Seq<char>> {
    |t: ObjectTypeView|
        match document::field(t.fields, "id"@) {
            Some(f) => Some(
                if f.field_type.base() == "ID"@ {
                    "String"@
                } else {
                    f.field_type.base()
                },
            ),
            None => None,
        }
}

/// The items of a sequence, each once, in the order of their first occurrences.
pub open spec fn distinct(s: Seq<Seq<char>>) -> Seq<Seq<char>>
    decreases s.len(),
{
    if s.len() == 0 {
        Seq::empty()
    } else if distinct(s.drop_last()).contains(s.last()) {
        distinct(s.drop_last())
    } else {
        distinct(s.drop_last()).push(s.last())
    }
}

/// The types of the ids of object types.
pub open spec fn id_types(objects: Seq<ObjectTypeView>) -> Seq<Seq<char>> {
    distinct(seqs::collect(objects, id_type()))
}

/// The types that implement an interface have ids of several types.
pub open spec fn mixed_ids() -> spec_fn((Seq<char>, Seq<ObjectTypeView>)) -> Option<
    SchemaValidationErrorView,
> {
    |g: (Seq<char>, Seq<ObjectTypeView>)|
        if id_types(g.1).len() > 1 {
            Some(
                SchemaValidationErrorView::InterfaceImplementorsMixId(
                    g.0,
                    errors::listed(id_types(g.1)),
                ),
            )
        } else {
            None
        }
}

/// The first interface whose implementors have ids of several types.
pub open spec fn interface_id_error(types_for_interface: Groups<ObjectTypeView>) -> Option<
    SchemaValidationErrorView,
> {
    seqs::find_map(types_for_interface, mixed_ids())
}

/// The types of the ids of object types.
fn list_id_types(objects: &Vec<ObjectType>) -> (r: Vec<String>)
    ensures
        seqs::deep(r@) == id_types(seqs::deep(objects@)),
{
    let ghost all = seqs::deep(objects@);
    let mut r: Vec<String> = Vec::new();
    let mut i: usize = 0;
    while i < objects.len()
        invariant
            i <= objects@.len(),
            all == seqs::deep(objects@),
            seqs::deep(r@) == distinct(seqs::collect(all.take(i as int), id_type())),
        decreases objects@.len() - i,
    {
        proof {
            seqs::lemma_collect_step(all, id_type(), i as int);
        }
        let ghost before = seqs::collect(all.take(i as int), id_type());
        if let Some(f) = objects[i].field("id") {
            let base = f.field_type.get_base_type();
            let name = if same(base, "ID") {
                "String"
            } else {
                base
            };
            assert(before.push(name@).drop_last() =~= before);
            if !contains_name(&r, name) {
                r.push(name.to_owned());
            }
        }
        i += 1;
    }
    proof {
        seqs::lemma_take_all(all);
    }
    r
}

impl Schema {
    /// Checks of each interface that the types that implement it have ids of one
    /// type.
    pub fn validate_interface_id_type(&self) -> (r: Result<
        (),
        SchemaValidationError,
    >)
        ensures
            errors::problem(r) == interface_id_error(self.types_for_interface@),
    {
        let ghost all = self.types_for_interface@;
        let mut i: usize = 0;
        while i < self.types_for_interface.len()
            invariant
                i <= all.len(),
                all == self.types_for_interface@,
                seqs::find_map(all.take(i as int), mixed_ids()) is None,
            decreases all.len() - i,
        {
            proof {
                seqs::lemma_find_map_step(all, mixed_ids(), i as int);
            }
            let id_types = list_id_types(self.types_for_interface.items(i));
            if id_types.len() > 1 {
                return Err(
                    SchemaValidationError::InterfaceImplementorsMixId(
                        self.types_for_interface.key(i).as_str().to_owned(),
                        join(&id_types, ", "),
                    ),
                );
            }
            i += 1;
        }
        proof {
            seqs::lemma_take_all(all);
        }
        Ok(())
    }
}

/// Whether an enum type has that name.
pub open spec fn enum_named(name: Seq<char>) -> spec_fn(EnumTypeView) -> bool {
    |t: EnumTypeView| t.name == name
}

/// Whether a name is that of a built-in scalar, or of an object type, interface
/// or enum type of the document.
pub open spec fn is_known_type(doc: Seq<DefinitionView>, name: Seq<char>) -> bool {
    ||| store::value_type(name) is Some
    ||| document::fields_of(doc, name) is Some
    ||| seqs::some(document::enum_types(doc), enum_named(name))
}

/// The type of a field is unknown.
pub open spec fn unknown_field_type(doc: Seq<DefinitionView>, owner: Seq<char>) -> spec_fn(
    FieldView,
) -> Option<SchemaValidationErrorView> {
    |f: FieldView|
        if is_known_type(doc, f.field_type.base()) {
            None
        } else {
            Some(
                SchemaValidationErrorView::FieldTypeUnknown(owner, f.name, f.field_type.base()),
            )
        }
}

/// The fields of a type whose types are unknown.
pub open spec fn unknown_field_types(doc: Seq<DefinitionView>) -> spec_fn(TypeFieldsView) -> Seq<
    SchemaValidationErrorView,
> {
    |t: TypeFieldsView| seqs::collect(t.fields, unknown_field_type(doc, t.name))
}

/// The fields of the object types and interfaces whose types are unknown.
pub open spec fn field_errors(doc: Seq<DefinitionView>) -> Seq<SchemaValidationErrorView> {
    seqs::flat_map(document::type_fields(doc), unknown_field_types(doc))
}

/// Whether one of the enum types has that name.
fn has_enum(enums: &Vec<&EnumType>, name: &str) -> (r: bool)
    ensures
        r == seqs::some(seqs::deep(enums@), enum_named(name@)),
{
    let ghost all = seqs::deep(enums@);
    let mut i: usize = 0;
    while i < enums.len()
        invariant
            i <= enums@.len(),
            all == seqs::deep(enums@),
            forall|j: int| 0 <= j < i ==> !#[trigger] enum_named(name@)(all[j]),
        decreases enums@.len() - i,
    {
        if same(enums[i].name.as_str(), name) {
            assert(enum_named(name@)(all[i as int]));
            return true;
        }
        i += 1;
    }
    false
}

impl Schema {
    /// Finds the fields of the object types and interfaces whose types are unknown.
    pub fn validate_fields(&self) -> (r: Vec<SchemaValidationError>)
        ensures
            seqs::deep(r@) == field_errors(self.document@),
    {
        let types = self.document.get_object_and_interface_type_fields();
        let enums = self.document.get_enum_definitions();
        let ghost all = seqs::deep(types@);
        let ghost wrong = unknown_field_types(self.document@);
        let mut r: Vec<SchemaValidationError> = Vec::new();
        let mut i: usize = 0;
        assert(seqs::deep(r@) =~= seqs::flat_map(all.take(0), wrong));
        while i < types.len()
            invariant
                i <= types@.len(),
                all == seqs::deep(types@),
                all == document::type_fields(self.document@),
                seqs::deep(enums@) == document::enum_types(self.document@),
                wrong == unknown_field_types(self.document@),
                seqs::deep(r@) == seqs::flat_map(all.take(i as int), wrong),
            decreases types@.len() - i,
        {
            let name = types[i].name;
            let fields = types[i].fields;
            let ghost here = seqs::deep(fields@);
            let ghost before = seqs::deep(r@);
            let ghost wrong_field = unknown_field_type(self.document@, name@);
            proof {
                assert(all[i as int] == types@[i as int]@);
                seqs::lemma_flat_map_step(all, wrong, i as int);
            }
            let mut j: usize = 0;
            assert(before + seqs::collect(here.take(0), wrong_field) =~= before);
            while j < fields.len()
                invariant
                    j <= fields@.len(),
                    here == seqs::deep(fields@),
                    all == seqs::deep(types@),
                    all == document::type_fields(self.document@),
                    seqs::deep(enums@) == document::enum_types(self.document@),
                    wrong_field == unknown_field_type(self.document@, name@),
                    seqs::deep(r@) == before + seqs::collect(here.take(j as int), wrong_field),
                decreases fields@.len() - j,
            {
                let field = &fields[j];
                proof {
                    assert(here[j as int] == field@);
                    seqs::lemma_collect_step(here, wrong_field, j as int);
                }
                let base = field.field_type.get_base_type();
                if !ValueType::is_scalar(base) && find_fields(&types, base).is_none() && !has_enum(
                    &enums,
                    base,
                ) {
                    let ghost done = seqs::collect(here.take(j as int), wrong_field);
                    let e = SchemaValidationError::FieldTypeUnknown(
                        name.clone(),
                        field.name.clone(),
                        base.to_owned(),
                    );
                    assert((before + done).push(e@) =~= before + done.push(e@));
                    r.push(e);
                }
                j += 1;
            }
            proof {
                seqs::lemma_take_all(here);
            }
            i += 1;
        }
        proof {
            seqs::lemma_take_all(all);
        }
        r
    }
}

} // verus!
