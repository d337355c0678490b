//! The schema of a subgraph.
use vstd::prelude::*;
use vstd::string::*;
use crate::ast::{
    Definition, DefinitionView, Directive, DirectiveView, Document, InterfaceType, ObjectType,
    ObjectTypeView, Pos, TypeDefinition, TypeDefinitionView, Value, ValueView,
};
use crate::block_strings;
use crate::derived;
use crate::document;
use crate::document::{SCHEMA_TYPE_NAME, find_directive};
use crate::errors;
use crate::errors::{SchemaValidationError, SchemaValidationErrorView};
use crate::fulltext_validation;
use crate::ids::{DeploymentHash, EntityKey, EntityType};
use crate::interfaces;
use crate::names::NameSet;
use crate::parser;
use crate::parser::parse_schema;
use crate::seqs;
use crate::store;
use crate::store::{Bytes, HexError};
use crate::subgraph_id_laws;
use crate::text::same;
use crate::type_map;
use crate::type_map::{Groups, TypeMap};
use crate::validation;

verus! {

broadcast use crate::seqs::lemma_deep_push;

/// The schema of a subgraph, prepared for use.
#[derive(Debug, PartialEq)]
pub struct Schema {
    pub id: DeploymentHash,
    pub document: Document,
    /// The interfaces that each type implements.
    pub interfaces_for_type: TypeMap<InterfaceType>,
    /// The types that implement each interface.
    pub types_for_interface: TypeMap<ObjectType>,
    /// The types whose entities never change.
    pub immutable_types: NameSet,
}

impl Clone for Schema {
    fn clone(&self) -> (r: Schema)
        ensures
            r.id@ == self.id@,
            r.document@ == self.document@,
            r.interfaces_for_type@ == self.interfaces_for_type@,
            r.types_for_interface@ == self.types_for_interface@,
            r.immutable_types@ == self.immutable_types@,
    {
        Schema {
            id: self.id.clone(),
            document: self.document.clone(),
            interfaces_for_type: self.interfaces_for_type.clone(),
            types_for_interface: self.types_for_interface.clone(),
            immutable_types: self.immutable_types.clone(),
        }
    }
}

/// The directive that says to which subgraph a type belongs.
pub open spec fn subgraph_id_directive(id: Seq<char>) -> DirectiveView {
    DirectiveView {
        position: Pos::nowhere(),
        name: "subgraphId"@,
        arguments: seq![("id"@, ValueView::String(id))],
    }
}

/// A type with the directive that says to which subgraph it belongs: the one that
/// it has, or else a new one. The `_Schema_` type gets none.
pub open spec fn type_with_subgraph_id(t: TypeDefinitionView, id: Seq<char>) -> TypeDefinitionView {
    if t.name() == SCHEMA_TYPE_NAME@ || document::directive(t.directives(), "subgraphId"@) is Some {
        t
    } else {
        t.with_directives(t.directives().push(subgraph_id_directive(id)))
    }
}

/// A definition with the directive that says to which subgraph it belongs, if it
/// defines a type.
pub open spec fn with_subgraph_id(d: DefinitionView, id: Seq<char>) -> DefinitionView {
    match d {
        DefinitionView::TypeDefinition(t) => DefinitionView::TypeDefinition(
            type_with_subgraph_id(t, id),
        ),
        _ => d,
    }
}

/// A document whose types say to which subgraph they belong.
pub open spec fn with_subgraph_ids(doc: Seq<DefinitionView>, id: Seq<char>) -> Seq<DefinitionView> {
    doc.map_values(|d: DefinitionView| with_subgraph_id(d, id))
}

/// Whether an object type has that name and never changes its entities.
pub open spec fn immutable_named(name: Seq<char>) -> spec_fn(ObjectTypeView) -> bool {
    |t: ObjectTypeView| t.name == name && t.is_immutable()
}

/// The names of the types of a document whose entities never change.
pub open spec fn immutable_names(doc: Seq<DefinitionView>) -> Set<Seq<char>> {
    Set::new(|name: Seq<char>| seqs::some(document::object_types(doc), immutable_named(name)))
}

/// Why a text gives no schema.
#[derive(Debug, PartialEq, Eq)]
pub enum SchemaError {
    /// The text is not in the schema language: what the parser says.
    Syntax(String),
    /// A type does not implement an interface.
    Validation(SchemaValidationError),
}

impl SchemaError {
    /// The error as it is told to the user.
    pub fn message(&self) -> (r: String)
        ensures
            match *self {
                SchemaError::Syntax(s) => r@ == s@,
                SchemaError::Validation(e) => r@ == e@.message(),
            },
    {
        match self {
            SchemaError::Syntax(s) => s.clone(),
            SchemaError::Validation(e) => e.message(),
        }
    }
}

/// Why an id cannot be stored.
#[derive(Debug, PartialEq, Eq)]
pub enum IdError {
    /// There is no such entity type: the message.
    UnknownType(String),
    /// The type of the ids is not one that ids can have: the message.
    IllegalType(String),
    /// The id is not in hexadecimal.
    Hex(HexError),
}

/// Whether `r` is what an id is stored as, or the reason why it cannot be.
pub open spec fn is_id_value(
    doc: Seq<DefinitionView>,
    key: EntityKey,
    r: Result<store::Value, IdError>,
) -> bool {
    let name = key.entity_type@;
    let id = key.entity_id@;
    match document::object_type(doc, name) {
        None => (r matches Err(IdError::UnknownType(message)) && message@ == "Entity "@ + name
            + "["@ + id + "]: unknown entity type `"@ + name + "`"@),
        Some(t) => {
            let base = document::field(t.fields, "id"@)->0.field_type.base();
            if base == "ID"@ || base == "String"@ {
                r matches Ok(v) && v@ == store::ValueView::String(id)
            } else if base == "Bytes"@ {
                match r {
                    Ok(store::Value::Bytes(bytes)) => store::is_decoded(
                        store::without_prefix(vstd::utf8::encode_utf8(id)),
                        Ok(bytes@),
                    ),
                    Err(IdError::Hex(e)) => store::is_decoded(
                        store::without_prefix(vstd::utf8::encode_utf8(id)),
                        Err(e),
                    ),
                    _ => false,
                }
            } else {
                r matches Err(IdError::IllegalType(message)) && message@ == "Entity type "@ + name
                    + " uses illegal type "@ + base + " for id column"@
            }
        },
    }
}

/// What is wrong with a schema where the names in `taken` are taken.
pub open spec fn schema_errors(
    doc: Seq<DefinitionView>,
    types_for_interface: Groups<ObjectTypeView>,
    taken: Seq<Seq<char>>,
) -> Seq<SchemaValidationErrorView> {
    seqs::collect(
        seq![
            validation::schema_types_error(doc),
            derived::derived_from_error(doc),
            validation::schema_type_fields_error(doc),
            validation::schema_type_directives_error(doc),
            validation::reserved_types_error(doc),
            validation::interface_id_error(types_for_interface),
        ],
        |e: Option<SchemaValidationErrorView>| e,
    ) + validation::field_errors(doc) + fulltext_validation::fulltext_errors(doc, taken)
}

impl Schema {
    /// Whether this is the schema of a subgraph with a document: its types say to
    /// which subgraph they belong, and the maps say what they implement.
    pub open spec fn is_for(&self, id: Seq<char>, doc: Seq<DefinitionView>) -> bool {
        &&& self.id@ == id
        &&& self.document@ == with_subgraph_ids(doc, id)
        &&& self.interfaces_for_type.wf()
        &&& self.types_for_interface.wf()
        &&& interfaces::gives_interfaces(
            self.interfaces_for_type@,
            doc,
            interfaces::implementations(doc),
        )
        &&& interfaces::gives_implementors(
            self.types_for_interface@,
            doc,
            interfaces::implementations(doc),
        )
        &&& self.immutable_types@ == immutable_names(doc)
    }

    /// The schema of a subgraph with a document.
    pub fn new(id: DeploymentHash, document: Document) -> (r: Result<
        Schema,
        SchemaValidationError,
    >)
        ensures
            match r {
                Ok(schema) => interfaces::interfaces_error(document@) is None && schema.is_for(
                    id@,
                    document@,
                ),
                Err(e) => interfaces::interfaces_error(document@) == Some(e@),
            },
    {
        let maps = match Schema::collect_interfaces(&document) {
            Ok(maps) => maps,
            Err(e) => {
                return Err(e);
            },
        };
        let immutable_types = Schema::collect_immutable_types(&document);
        let mut schema = Schema {
            id: id.clone(),
            document,
            interfaces_for_type: maps.0,
            types_for_interface: maps.1,
            immutable_types,
        };
        schema.add_subgraph_id_directives(id);
        Ok(schema)
    }

    /// The value that the id of an entity is stored as.
    pub fn id_value(&self, key: &EntityKey) -> (r: Result<store::Value, IdError>)
        requires
            document::object_type(self.document@, key.entity_type@) matches Some(t)
                ==> document::field(t.fields, "id"@) is Some,
        ensures
            is_id_value(self.document@, *key, r),
    {
        let name = key.entity_type.as_str();
        let id = key.entity_id.as_str();
        let t = match self.document.get_object_type_definition(name) {
            Some(t) => t,
            None => {
                let mut message = "Entity ".to_owned();
                message.append(name);
                message.append("[");
                message.append(id);
                message.append("]: unknown entity type `");
                message.append(name);
                message.append("`");
                return Err(IdError::UnknownType(message));
            },
        };
        let base = t.field("id").unwrap().field_type.get_base_type();
        if same(base, "ID") || same(base, "String") {
            Ok(store::Value::String(key.entity_id.clone()))
        } else if same(base, "Bytes") {
            match Bytes::from_hex(id) {
                Ok(bytes) => Ok(store::Value::Bytes(bytes)),
                Err(e) => Err(IdError::Hex(e)),
            }
        } else {
            let mut message = "Entity type ".to_owned();
            message.append(name);
            message.append(" uses illegal type ");
            message.append(base);
            message.append(" for id column");
            Err(IdError::IllegalType(message))
        }
    }

    /// Whether the entities of a type never change.
    pub fn is_immutable(&self, entity_type: &EntityType) -> (r: bool)
        ensures
            r == self.immutable_types@.contains(entity_type@),
    {
        self.immutable_types.contains(entity_type.as_str())
    }

    /// The names of the types whose entities never change.
    fn collect_immutable_types(document: &Document) -> (r: NameSet)
        ensures
            r@ == immutable_names(document@),
    {
        let objects = document.get_object_type_definitions();
        let ghost all = seqs::deep(objects@);
        let mut r = NameSet::new();
        let mut i: usize = 0;
        while i < objects.len()
            invariant
                i <= objects@.len(),
                all == seqs::deep(objects@),
                forall|name: Seq<char>| #[trigger]
                    r@.contains(name) <==> seqs::some(all.take(i as int), immutable_named(name)),
            decreases objects@.len() - i,
        {
            proof {
                assert forall|name: Seq<char>| #[trigger]
                    seqs::some(all.take(i + 1), immutable_named(name)) == (seqs::some(
                        all.take(i as int),
                        immutable_named(name),
                    ) || immutable_named(name)(all[i as int])) by {
                    seqs::lemma_some_step(all, immutable_named(name), i as int);
                }
                assert(all[i as int] == objects@[i as int]@);
            }
            if objects[i].is_immutable() {
                r = r.with(objects[i].name.clone());
            }
            i += 1;
        }
        proof {
            seqs::lemma_take_all(all);
            assert(r@ =~= immutable_names(document@));
        }
        r
    }

    /// The schema of a subgraph with a document in the schema language.
    pub fn parse(raw: &str, id: DeploymentHash) -> (r: Result<Schema, SchemaError>)
        requires
            block_strings::block_strings_safe(raw@),
        ensures
            match parser::parsed_schema(raw@) {
                Err(message) => (r matches Err(SchemaError::Syntax(s)) && s@ == message),
                Ok(doc) => match interfaces::interfaces_error(doc) {
                    Some(e) => (r matches Err(SchemaError::Validation(x)) && x@ == e),
                    None => (r matches Ok(schema) && schema.is_for(id@, doc)),
                },
            },
            parser::parsed_schema(raw@) matches Ok(doc) ==> parser::texts_fit(doc),
            r matches Ok(schema) ==> parser::texts_fit(schema.document@),
    {
        let document = match parse_schema(raw) {
            Ok(document) => document,
            Err(message) => {
                return Err(SchemaError::Syntax(message));
            },
        };
        proof {
            subgraph_id_laws::law_subgraph_ids_keep_texts(document@, id@);
        }
        match Schema::new(id, document) {
            Ok(schema) => Ok(schema),
            Err(e) => Err(SchemaError::Validation(e)),
        }
    }

    /// The types that implement each interface; each interface has an entry.
    pub fn types_for_interface(&self) -> (r: &TypeMap<ObjectType>)
        ensures
            *r == self.types_for_interface,
    {
        &self.types_for_interface
    }

    /// The interfaces that a type implements; `None` if it implements none.
    pub fn interfaces_for_type(&self, entity_type: &EntityType) -> (r: Option<&Vec<InterfaceType>>)
        ensures
            r is Some <==> type_map::group(self.interfaces_for_type@, entity_type@) is Some,
            r matches Some(interfaces) ==> type_map::group(
                self.interfaces_for_type@,
                entity_type@,
            ) == Some(seqs::deep(interfaces@)),
    {
        self.interfaces_for_type.get(entity_type)
    }

    /// Puts a `@subgraphId` directive on each type but `_Schema_` that has none.
    pub fn add_subgraph_id_directives(&mut self, id: DeploymentHash)
        ensures
            final(self).document@ == with_subgraph_ids(old(self).document@, id@),
            final(self).id == old(self).id,
            final(self).interfaces_for_type == old(self).interfaces_for_type,
            final(self).types_for_interface == old(self).types_for_interface,
            final(self).immutable_types == old(self).immutable_types,
    {
        add_subgraph_ids(&mut self.document, id.as_str());
    }
}

/// Puts a `@subgraphId` directive on each type but `_Schema_` that has none.
fn add_subgraph_ids(document: &mut Document, id: &str)
    ensures
        final(document)@ == with_subgraph_ids(old(document)@, id@),
{
    let ghost all = document@;
    let ghost done = with_subgraph_ids(all, id@);
    let mut i: usize = 0;
    while i < document.definitions.len()
        invariant
            i <= document.definitions@.len(),
            all.len() == document.definitions@.len(),
            done == with_subgraph_ids(all, id@),
            forall|j: int| 0 <= j < i ==> #[trigger] document@[j] == done[j],
            forall|j: int| i <= j < all.len() ==> #[trigger] document@[j] == all[j],
        decreases all.len() - i,
    {
        let ghost before = document@;
        let missing: bool = match &document.definitions[i] {
            Definition::TypeDefinition(t) => !same(t.name().as_str(), SCHEMA_TYPE_NAME)
                && find_directive(t.directives(), "subgraphId").is_none(),
            _ => false,
        };
        assert(before[i as int] == all[i as int]);
        if missing {
            if let Definition::TypeDefinition(t) = &mut document.definitions[i] {
                let mut arguments: Vec<(String, Value)> = Vec::new();
                arguments.push(("id".to_owned(), Value::String(id.to_owned())));
                let directive = Directive {
                    position: Pos::default(),
                    name: "subgraphId".to_owned(),
                    arguments,
                };
                assert(directive@ =~= subgraph_id_directive(id@));
                t.push_directive(directive);
            }
        }
        assert(document@ =~= before.update(i as int, done[i as int]));
        i += 1;
    }
    assert(document@ =~= done);
}

/// Puts the error that a check has found behind others.
fn push_problem(found: &mut Vec<SchemaValidationError>, r: Result<(), SchemaValidationError>)
    ensures
        seqs::deep(final(found)@) == match errors::problem(r) {
            Some(e) => seqs::deep(old(found)@).push(e),
            None => seqs::deep(old(found)@),
        },
{
    if let Err(e) = r {
        found.push(e);
    }
}

impl Schema {
    /// Checks the schema; all that is wrong with it comes out.
    pub fn validate(&self) -> (r: Result<(), Vec<SchemaValidationError>>)
        ensures
            ({
                let found = schema_errors(
                    self.document@,
                    self.types_for_interface@,
                    fulltext_validation::query_names(self.document@),
                );
                match r {
                    Ok(()) => found.len() == 0,
                    Err(e) => found.len() > 0 && seqs::deep(e@) == found,
                }
            }),
    {
        let taken = fulltext_validation::list_query_names(&self.document);
        self.validate_against(&taken)
    }

    /// Checks the schema where the names in `taken` are taken.
    pub fn validate_against(&self, taken: &Vec<String>) -> (r: Result<
        (),
        Vec<SchemaValidationError>,
    >)
        ensures
            ({
                let found = schema_errors(
                    self.document@,
                    self.types_for_interface@,
                    seqs::deep(taken@),
                );
                match r {
                    Ok(()) => found.len() == 0,
                    Err(e) => found.len() > 0 && seqs::deep(e@) == found,
                }
            }),
    {
        let mut found: Vec<SchemaValidationError> = Vec::new();
        push_problem(&mut found, self.validate_schema_types());
        push_problem(&mut found, self.validate_derived_from());
        push_problem(&mut found, self.validate_schema_type_has_no_fields());
        push_problem(&mut found, self.validate_directives_on_schema_type());
        push_problem(&mut found, self.validate_reserved_types_usage());
        push_problem(&mut found, self.validate_interface_id_type());
        proof {
            let doc = self.document@;
            let all = seq![
                validation::schema_types_error(doc),
                derived::derived_from_error(doc),
                validation::schema_type_fields_error(doc),
                validation::schema_type_directives_error(doc),
                validation::reserved_types_error(doc),
                validation::interface_id_error(self.types_for_interface@),
            ];
            let f = |e: Option<SchemaValidationErrorView>| e;
            seqs::lemma_collect_step(all, f, 0);
            seqs::lemma_collect_step(all, f, 1);
            seqs::lemma_collect_step(all, f, 2);
            seqs::lemma_collect_step(all, f, 3);
            seqs::lemma_collect_step(all, f, 4);
            seqs::lemma_collect_step(all, f, 5);
            seqs::lemma_take_all(all);
            assert(seqs::deep(found@) == seqs::collect(all, f));
        }
        let mut fields = self.validate_fields();
        let mut searches = self.fulltext_directive_errors(taken);
        assert(seqs::deep(found@ + fields@ + searches@) =~= seqs::deep(found@) + seqs::deep(fields@)
            + seqs::deep(searches@));
        found.append(&mut fields);
        found.append(&mut searches);
        if found.len() == 0 {
            Ok(())
        } else {
            Err(found)
        }
    }

    /// Checks the `@fulltext` directives.
    pub fn validate_fulltext_directives(&self) -> (r: Vec<SchemaValidationError>)
        ensures
            seqs::deep(r@) == fulltext_validation::fulltext_errors(
                self.document@,
                fulltext_validation::query_names(self.document@),
            ),
    {
        let taken = fulltext_validation::list_query_names(&self.document);
        self.fulltext_directive_errors(&taken)
    }

    /// The `_Schema_` type.
    pub fn subgraph_schema_object_type(&self) -> (r: Option<&ObjectType>)
        ensures
            seqs::opt(r) == validation::schema_type(self.document@),
    {
        self.document.get_object_type_definition(SCHEMA_TYPE_NAME)
    }
}

} // verus!
