//! The schema of the API through which a subgraph is queried.
use vstd::prelude::*;
use std::sync::Arc;
use crate::ast::{
    Definition, DefinitionView, Document, Field, InterfaceType, ObjectType, ObjectTypeView, Type,
    TypeDefinition, TypeDefinitionView, TypeView,
};
use crate::block_strings;
use crate::block_strings::has_safe_block_strings;
use crate::document;
use crate::document::{ObjectOrInterface, ObjectOrInterfaceView};
use crate::ids::{DeploymentHash, EntityType};
use crate::introspection;
use crate::introspection::{INTROSPECTION_TYPES, add_introspection_schema};
use crate::parser;
use crate::parser::parse_schema;
use crate::schema::Schema;
use crate::seqs;
use crate::text::{chars_of, same};
use crate::type_map;
use crate::type_map::TypeMap;

verus! {

broadcast use crate::seqs::lemma_deep_push;

/// The schema of the API of a subgraph, with the types through which a query asks
/// about the schema itself mixed in.
#[derive(Debug)]
pub struct ApiSchema {
    schema: Schema,
    /// The root types.
    pub query_type: Arc<ObjectType>,
    pub subscription_type: Option<Arc<ObjectType>>,
    object_types: Vec<Arc<ObjectType>>,
    introspection: Document,
}

/// What an `ApiSchema` stands for.
pub struct ApiSchemaView {
    pub schema: Schema,
    pub query_type: ObjectTypeView,
    pub subscription_type: Option<ObjectTypeView>,
    pub object_types: Seq<ObjectTypeView>,
    pub introspection: Seq<DefinitionView>,
}

impl View for ApiSchema {
    type V = ApiSchemaView;

    closed spec fn view(&self) -> ApiSchemaView {
        ApiSchemaView {
            schema: self.schema,
            query_type: self.query_type@,
            subscription_type: seqs::opt(self.subscription_type),
            object_types: seqs::deep(self.object_types@),
            introspection: self.introspection@,
        }
    }
}

/// The last object type with a name.
pub open spec fn last_named(objects: Seq<ObjectTypeView>, name: Seq<char>) -> Option<ObjectTypeView>
    decreases objects.len(),
{
    if objects.len() == 0 {
        None
    } else if objects.last().name == name {
        Some(objects.last())
    } else {
        last_named(objects.drop_last(), name)
    }
}

/// Whether a type is one that arguments can have.
pub open spec fn is_input_type(doc: Seq<DefinitionView>, t: TypeView) -> bool {
    match document::named_type(doc, t.base()) {
        Some(TypeDefinitionView::Scalar(_)) => true,
        Some(TypeDefinitionView::Enum(_)) => true,
        Some(TypeDefinitionView::InputObject(_)) => true,
        _ => false,
    }
}

/// The definition of the first object type named `Query`.
pub open spec fn query_definition() -> spec_fn(DefinitionView) -> Option<TypeDefinitionView> {
    |d: DefinitionView|
        match introspection::pick_query()(d) {
            Some(t) => Some(TypeDefinitionView::Object(t)),
            None => None,
        }
}

/// Whether a name begins with two underscores.
pub open spec fn is_introspection_name(name: Seq<char>) -> bool {
    name.len() >= 2 && name[0] == '_' && name[1] == '_'
}

/// The object type or interface that is found under a name: a name that begins
/// with two underscores is one of the types that describe a schema.
pub open spec fn looked_up(api: ApiSchemaView, name: Seq<char>) -> Option<ObjectOrInterfaceView> {
    if is_introspection_name(name) {
        document::object_or_interface(api.introspection, name)
    } else {
        document::object_or_interface(api.schema.document@, name)
    }
}

impl ApiSchema {
    /// The object types that are held ready are those of the document.
    pub open spec fn wf(&self) -> bool {
        self@.object_types == document::object_types(self@.schema.document@)
    }

    /// Whether this is the API schema for a schema into which the types that
    /// describe a schema are mixed.
    pub open spec fn is_for(&self, schema: Schema, introspection: Seq<DefinitionView>) -> bool {
        let doc = self@.schema.document@;
        &&& introspection::has_introspection(doc, schema.document@, introspection)
        &&& self@.schema.id == schema.id
        &&& self@.schema.interfaces_for_type == schema.interfaces_for_type
        &&& self@.schema.types_for_interface == schema.types_for_interface
        &&& self@.schema.immutable_types == schema.immutable_types
        &&& Some(self@.query_type) == document::object_type(doc, "Query"@)
        &&& self@.subscription_type == document::object_type(doc, "Subscription"@)
        &&& self@.introspection == introspection
    }

    /// The API schema for a schema, with fields `__schema` and `__type` in its
    /// `Query` type and the types that they need.
    pub fn from_api_schema(api_schema: Schema) -> (r: Result<ApiSchema, String>)
        requires
            document::object_type(api_schema.document@, "Query"@) is Some,
        ensures
            match r {
                Ok(api) => {
                    &&& parser::parsed_schema(INTROSPECTION_TYPES@) matches Ok(introspection)
                    &&& api.wf()
                    &&& api.is_for(api_schema, introspection)
                },
                Err(message) => {
                    ||| !block_strings::block_strings_safe(INTROSPECTION_TYPES@) && message@
                        == "the introspection types are not indented as they have to be"@
                    ||| parser::parsed_schema(INTROSPECTION_TYPES@) == Err::<
                        Seq<DefinitionView>,
                        Seq<char>,
                    >(message@)
                },
            },
    {
        if !has_safe_block_strings(INTROSPECTION_TYPES) {
            return Err("the introspection types are not indented as they have to be".to_owned());
        }
        match parse_schema(INTROSPECTION_TYPES) {
            Ok(introspection) => {
                proof {
                    lemma_query_stays(api_schema.document@, introspection@);
                }
                Ok(ApiSchema::with_introspection(api_schema, introspection))
            },
            Err(message) => Err(message),
        }
    }

    /// The API schema for a schema into which the types of a document that
    /// describe a schema are mixed.
    pub fn with_introspection(api_schema: Schema, introspection: Document) -> (r: ApiSchema)
        requires
            document::object_type(api_schema.document@ + introspection@, "Query"@) is Some,
        ensures
            r.wf(),
            r.is_for(api_schema, introspection@),
    {
        let mut schema = api_schema;
        add_introspection_schema(&mut schema.document, &introspection);
        proof {
            lemma_has_query(schema.document@, api_schema.document@, introspection@);
        }
        let query_type = match schema.document.get_root_query_type() {
            Some(t) => Arc::new(t.clone()),
            None => vstd::pervasive::unreached(),
        };
        let subscription_type = match schema.document.get_root_subscription_type() {
            Some(t) => Some(Arc::new(t.clone())),
            None => None,
        };
        let objects = schema.document.get_object_type_definitions();
        let mut object_types: Vec<Arc<ObjectType>> = Vec::new();
        let mut i: usize = 0;
        while i < objects.len()
            invariant
                i <= objects@.len(),
                seqs::deep(object_types@) =~= seqs::deep(objects@).take(i as int),
            decreases objects@.len() - i,
        {
            object_types.push(Arc::new(objects[i].clone()));
            i += 1;
        }
        assert(seqs::deep(object_types@) =~= seqs::deep(objects@));
        ApiSchema { schema, query_type, subscription_type, object_types, introspection }
    }

    /// The root query type.
    pub fn query_type(&self) -> (r: &Arc<ObjectType>)
        ensures
            r@ == self@.query_type,
    {
        &self.query_type
    }

    /// The root subscription type, if there is one.
    pub fn subscription_type(&self) -> (r: Option<&Arc<ObjectType>>)
        ensures
            seqs::opt(r) == self@.subscription_type,
    {
        match &self.subscription_type {
            Some(t) => Some(t),
            None => None,
        }
    }

    pub fn document(&self) -> (r: &Document)
        ensures
            *r == self@.schema.document,
    {
        &self.schema.document
    }

    pub fn id(&self) -> (r: &DeploymentHash)
        ensures
            *r == self@.schema.id,
    {
        &self.schema.id
    }

    pub fn schema(&self) -> (r: &Schema)
        ensures
            *r == self@.schema,
    {
        &self.schema
    }

    /// The types that implement each interface.
    pub fn types_for_interface(&self) -> (r: &TypeMap<ObjectType>)
        ensures
            *r == self@.schema.types_for_interface,
    {
        &self.schema.types_for_interface
    }

    /// The interfaces that a type implements; `None` if it implements none.
    pub fn interfaces_for_type(&self, entity_type: &EntityType) -> (r: Option<&Vec<InterfaceType>>)
        ensures
            r is Some <==> type_map::group(self@.schema.interfaces_for_type@, entity_type@) is Some,
            r matches Some(interfaces) ==> type_map::group(
                self@.schema.interfaces_for_type@,
                entity_type@,
            ) == Some(seqs::deep(interfaces@)),
    {
        self.schema.interfaces_for_type(entity_type)
    }

    /// The object type that is held ready under the name of the given one, which
    /// must be part of this schema.
    pub fn object_type(&self, obj_type: &ObjectType) -> (r: Arc<ObjectType>)
        requires
            self.wf(),
            last_named(document::object_types(self@.schema.document@), obj_type@.name) is Some,
        ensures
            Some(r@) == last_named(
                document::object_types(self@.schema.document@),
                obj_type@.name,
            ),
    {
        let ghost all = seqs::deep(self.object_types@);
        let mut i: usize = self.object_types.len();
        proof {
            seqs::lemma_take_all(all);
        }
        while i > 0
            invariant
                i <= self.object_types@.len(),
                all == seqs::deep(self.object_types@),
                all == document::object_types(self@.schema.document@),
                last_named(all, obj_type@.name) is Some,
                last_named(all, obj_type@.name) == last_named(all.take(i as int), obj_type@.name),
            decreases i,
        {
            proof {
                seqs::lemma_take_step(all, i - 1);
                assert(all[i - 1] == self.object_types@[i - 1]@);
            }
            if same(self.object_types[i - 1].name.as_str(), obj_type.name.as_str()) {
                return self.object_types[i - 1].clone();
            }
            i -= 1;
        }
        vstd::pervasive::unreached()
    }

    /// The first type with that name.
    pub fn get_named_type(&self, name: &str) -> (r: Option<&TypeDefinition>)
        ensures
            seqs::opt(r) == document::named_type(self@.schema.document@, name@),
    {
        self.schema.document.get_named_type(name)
    }

    /// Whether a type is one that arguments can have: a scalar, an enum type or an
    /// input object type, or lists of these.
    pub fn is_input_type(&self, t: &Type) -> (r: bool)
        ensures
            r == is_input_type(self@.schema.document@, t@),
        decreases t,
    {
        match t {
            Type::NamedType(name) => match self.get_named_type(name.as_str()) {
                Some(TypeDefinition::Scalar(_)) => true,
                Some(TypeDefinition::Enum(_)) => true,
                Some(TypeDefinition::InputObject(_)) => true,
                _ => false,
            },
            Type::ListType(inner) => self.is_input_type(inner),
            Type::NonNullType(inner) => self.is_input_type(inner),
        }
    }

    /// The definition of the root query type.
    pub fn get_root_query_type_def(&self) -> (r: Option<&TypeDefinition>)
        ensures
            seqs::opt(r) == seqs::find_map(self@.schema.document@, query_definition()),
    {
        let doc = &self.schema.document;
        let mut i: usize = 0;
        while i < doc.definitions.len()
            invariant
                i <= doc.definitions@.len(),
                *doc == self.schema.document,
                seqs::find_map(doc@.take(i as int), query_definition()) is None,
            decreases doc.definitions@.len() - i,
        {
            proof {
                seqs::lemma_find_map_step(doc@, query_definition(), i as int);
            }
            if let Definition::TypeDefinition(definition) = &doc.definitions[i] {
                if let TypeDefinition::Object(t) = definition {
                    if same(t.name.as_str(), "Query") {
                        return Some(definition);
                    }
                }
            }
            i += 1;
        }
        proof {
            seqs::lemma_take_all(doc@);
        }
        None
    }

    /// The first type with that name, where it is an object type or an interface.
    /// A name that begins with two underscores is one of the types that describe a
    /// schema.
    pub fn object_or_interface(&self, name: &str) -> (r: Option<ObjectOrInterface<'_>>)
        ensures
            seqs::opt(r) == looked_up(self@, name@),
            name@.len() >= 2 && name@[0] == '_' && name@[1] == '_' ==> seqs::opt(r)
                == document::object_or_interface(self@.introspection, name@),
            !(name@.len() >= 2 && name@[0] == '_' && name@[1] == '_') ==> seqs::opt(r)
                == document::object_or_interface(self@.schema.document@, name@),
    {
        let cs = chars_of(name);
        if cs.len() >= 2 && cs[0] == '_' && cs[1] == '_' {
            self.introspection.object_or_interface(name)
        } else {
            self.schema.document.object_or_interface(name)
        }
    }

    /// The definition of the type of a field.
    pub fn get_type_definition_from_field<'a>(&'a self, field: &Field) -> (r: Option<
        &'a TypeDefinition,
    >)
        ensures
            seqs::opt(r) == document::named_type(
                self@.schema.document@,
                field@.field_type.base(),
            ),
    {
        self.get_type_definition_from_type(&field.field_type)
    }

    /// The definition of the type inside all lists and non-null marks.
    pub fn get_type_definition_from_type<'a>(&'a self, t: &Type) -> (r: Option<&'a TypeDefinition>)
        ensures
            seqs::opt(r) == document::named_type(self@.schema.document@, t@.base()),
        decreases t,
    {
        match t {
            Type::NamedType(name) => self.get_named_type(name.as_str()),
            Type::ListType(inner) => self.get_type_definition_from_type(inner),
            Type::NonNullType(inner) => self.get_type_definition_from_type(inner),
        }
    }

    /// The definitions of the document.
    pub fn definitions(&self) -> (r: &Vec<Definition>)
        ensures
            seqs::deep(r@) == self@.schema.document@,
    {
        &self.schema.document.definitions
    }
}

/// A `Query` type in front is one of the whole.
proof fn lemma_query_stays(doc: Seq<DefinitionView>, introspection: Seq<DefinitionView>)
    requires
        document::object_type(doc, "Query"@) is Some,
    ensures
        document::object_type(doc + introspection, "Query"@) is Some,
{
    let f = introspection::pick_query();
    let all = doc + introspection;
    document::lemma_object_defined(doc, "Query"@);
    document::lemma_object_defined(all, "Query"@);
    assert(all.take(doc.len() as int) =~= doc);
    seqs::lemma_find_map_prefix(all, f, doc.len() as int);
}

/// Mixing in the types that describe a schema leaves a `Query` type.
proof fn lemma_has_query(
    after: Seq<DefinitionView>,
    doc: Seq<DefinitionView>,
    introspection: Seq<DefinitionView>,
)
    requires
        introspection::has_introspection(after, doc, introspection),
    ensures
        document::object_type(after, "Query"@) is Some,
{
    let f = introspection::pick_query();
    let i = choose|i: int| #[trigger]
        introspection::is_first_query(doc + introspection, i) && after == (doc
            + introspection).update(
            i,
            DefinitionView::TypeDefinition(
                TypeDefinitionView::Object(
                    introspection::with_introspection_fields(f((doc + introspection)[i])->0),
                ),
            ),
        );
    document::lemma_object_defined(after, "Query"@);
    seqs::lemma_find_map_some(after, f);
    assert(f(after[i]) is Some);
}

} // verus!
