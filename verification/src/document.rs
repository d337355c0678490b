//! Finding definitions, fields, directives and arguments in a document.
use vstd::prelude::*;
use crate::seqs;
use crate::ast;
use crate::ast::{
    Definition, DefinitionView, Directive, DirectiveView, Document, EnumType, EnumTypeView, Field,
    FieldView, InterfaceType, InterfaceTypeView, ObjectType, ObjectTypeView, TypeDefinition,
    TypeDefinitionView, Value, ValueView,
};
use crate::text::same;

verus! {

broadcast use crate::seqs::lemma_deep_push;

/// The object type that carries the `@fulltext` directives of a schema.
pub const SCHEMA_TYPE_NAME: &'static str = "_Schema_";

/// The object type of the field through which a query asks for metadata.
pub const META_FIELD_TYPE: &'static str = "_Meta_";

/// The field through which a query asks for metadata.
pub const META_FIELD_NAME: &'static str = "_meta";

/// The object type that describes a block in that metadata.
pub const BLOCK_FIELD_TYPE: &'static str = "_Block_";

/// The object type that a definition defines, if it defines one.
pub open spec fn pick_object() -> spec_fn(DefinitionView) -> Option<ObjectTypeView> {
    |d: DefinitionView|
        match d {
            DefinitionView::TypeDefinition(TypeDefinitionView::Object(t)) => Some(t),
            _ => None,
        }
}

/// The interface that a definition defines, if it defines one.
pub open spec fn pick_interface() -> spec_fn(DefinitionView) -> Option<InterfaceTypeView> {
    |d: DefinitionView|
        match d {
            DefinitionView::TypeDefinition(TypeDefinitionView::Interface(t)) => Some(t),
            _ => None,
        }
}

/// The enum type that a definition defines, if it defines one.
pub open spec fn pick_enum() -> spec_fn(DefinitionView) -> Option<EnumTypeView> {
    |d: DefinitionView|
        match d {
            DefinitionView::TypeDefinition(TypeDefinitionView::Enum(t)) => Some(t),
            _ => None,
        }
}

/// The object types of a document, in order.
pub open spec fn object_types(doc: Seq<DefinitionView>) -> Seq<ObjectTypeView> {
    seqs::collect(doc, pick_object())
}

/// The interfaces of a document, in order.
pub open spec fn interface_types(doc: Seq<DefinitionView>) -> Seq<InterfaceTypeView> {
    seqs::collect(doc, pick_interface())
}

/// The enum types of a document, in order.
pub open spec fn enum_types(doc: Seq<DefinitionView>) -> Seq<EnumTypeView> {
    seqs::collect(doc, pick_enum())
}

/// An object type, if it has that name.
pub open spec fn object_named(name: Seq<char>) -> spec_fn(ObjectTypeView) -> Option<ObjectTypeView> {
    |x: ObjectTypeView|
        if x.name == name {
            Some(x)
        } else {
            None
        }
}

/// A field, if it has that name.
pub open spec fn field_named(name: Seq<char>) -> spec_fn(FieldView) -> Option<FieldView> {
    |x: FieldView|
        if x.name == name {
            Some(x)
        } else {
            None
        }
}

/// A directive, if it has that name.
pub open spec fn directive_named(name: Seq<char>) -> spec_fn(DirectiveView) -> Option<DirectiveView> {
    |x: DirectiveView|
        if x.name == name {
            Some(x)
        } else {
            None
        }
}

/// The interface that a definition defines, if it has that name.
pub open spec fn interface_named(name: Seq<char>) -> spec_fn(DefinitionView) -> Option<
    InterfaceTypeView,
> {
    |d: DefinitionView|
        match d {
            DefinitionView::TypeDefinition(TypeDefinitionView::Interface(t)) => if t.name == name {
                Some(t)
            } else {
                None
            },
            _ => None,
        }
}

/// The type that a definition defines, if it has that name.
pub open spec fn type_named(name: Seq<char>) -> spec_fn(DefinitionView) -> Option<
    TypeDefinitionView,
> {
    |d: DefinitionView|
        match d {
            DefinitionView::TypeDefinition(t) => if t.name() == name {
                Some(t)
            } else {
                None
            },
            _ => None,
        }
}

/// The value of an argument or of an entry of an object, if it has that name.
pub open spec fn entry_named(name: Seq<char>) -> spec_fn((Seq<char>, ValueView)) -> Option<
    ValueView,
> {
    |e: (Seq<char>, ValueView)|
        if e.0 == name {
            Some(e.1)
        } else {
            None
        }
}

/// The first object type of a document with that name.
pub open spec fn object_type(doc: Seq<DefinitionView>, name: Seq<char>) -> Option<ObjectTypeView> {
    seqs::find_map(object_types(doc), object_named(name))
}

/// The object type that a definition defines, if it has that name.
pub open spec fn object_defined(name: Seq<char>) -> spec_fn(DefinitionView) -> Option<
    ObjectTypeView,
> {
    |d: DefinitionView|
        match d {
            DefinitionView::TypeDefinition(TypeDefinitionView::Object(t)) => if t.name == name {
                Some(t)
            } else {
                None
            },
            _ => None,
        }
}

/// An object type is found by its name where a definition defines one with it.
pub proof fn lemma_object_defined(doc: Seq<DefinitionView>, name: Seq<char>)
    ensures
        object_type(doc, name) == seqs::find_map(doc, object_defined(name)),
    decreases doc.len(),
{
    if doc.len() > 0 {
        let front = doc.drop_last();
        lemma_object_defined(front, name);
        let some = object_types(front);
        match pick_object()(doc.last()) {
            Some(t) => {
                assert(object_types(doc) == some.push(t));
                assert(some.push(t).drop_last() =~= some);
            },
            None => {},
        }
    }
}

/// The first interface of a document with that name.
pub open spec fn interface_type(doc: Seq<DefinitionView>, name: Seq<char>) -> Option<
    InterfaceTypeView,
> {
    seqs::find_map(doc, interface_named(name))
}

/// The first type of a document with that name, of whatever kind.
pub open spec fn named_type(doc: Seq<DefinitionView>, name: Seq<char>) -> Option<
    TypeDefinitionView,
> {
    seqs::find_map(doc, type_named(name))
}

/// The first field with that name.
pub open spec fn field(fields: Seq<FieldView>, name: Seq<char>) -> Option<FieldView> {
    seqs::find_map(fields, field_named(name))
}

/// The first directive with that name.
pub open spec fn directive(directives: Seq<DirectiveView>, name: Seq<char>) -> Option<
    DirectiveView,
> {
    seqs::find_map(directives, directive_named(name))
}

/// The value of the first entry with that name.
pub open spec fn entry(entries: Seq<(Seq<char>, ValueView)>, name: Seq<char>) -> Option<ValueView> {
    seqs::find_map(entries, entry_named(name))
}

/// The first field with that name.
pub fn find_field<'a>(fields: &'a Vec<Field>, name: &str) -> (r: Option<&'a Field>)
    ensures
        seqs::opt(r) == field(seqs::deep(fields@), name@),
{
    let ghost all = seqs::deep(fields@);
    let mut i: usize = 0;
    while i < fields.len()
        invariant
            i <= fields@.len(),
            all == seqs::deep(fields@),
            seqs::find_map(all.take(i as int), field_named(name@)) is None,
        decreases fields@.len() - i,
    {
        proof {
            seqs::lemma_find_map_step(all, field_named(name@), i as int);
        }
        if same(fields[i].name.as_str(), name) {
            return Some(&fields[i]);
        }
        i += 1;
    }
    proof {
        seqs::lemma_take_all(all);
    }
    None
}

/// The first directive with that name.
pub fn find_directive<'a>(directives: &'a Vec<Directive>, name: &str) -> (r: Option<&'a Directive>)
    ensures
        seqs::opt(r) == directive(seqs::deep(directives@), name@),
{
    let ghost all = seqs::deep(directives@);
    let mut i: usize = 0;
    while i < directives.len()
        invariant
            i <= directives@.len(),
            all == seqs::deep(directives@),
            seqs::find_map(all.take(i as int), directive_named(name@)) is None,
        decreases directives@.len() - i,
    {
        proof {
            seqs::lemma_find_map_step(all, directive_named(name@), i as int);
        }
        if same(directives[i].name.as_str(), name) {
            return Some(&directives[i]);
        }
        i += 1;
    }
    proof {
        seqs::lemma_take_all(all);
    }
    None
}

/// The value of the first entry with that name.
pub fn find_entry<'a>(entries: &'a Vec<(String, Value)>, name: &str) -> (r: Option<&'a Value>)
    ensures
        seqs::opt(r) == entry(seqs::deep(entries@), name@),
{
    let ghost all = seqs::deep(entries@);
    let mut i: usize = 0;
    while i < entries.len()
        invariant
            i <= entries@.len(),
            all == seqs::deep(entries@),
            seqs::find_map(all.take(i as int), entry_named(name@)) is None,
        decreases entries@.len() - i,
    {
        proof {
            seqs::lemma_find_map_step(all, entry_named(name@), i as int);
        }
        if same(entries[i].0.as_str(), name) {
            return Some(&entries[i].1);
        }
        i += 1;
    }
    proof {
        seqs::lemma_take_all(all);
    }
    None
}

impl DirectiveView {
    /// The value of the argument with that name.
    pub open spec fn argument(self, name: Seq<char>) -> Option<ValueView> {
        entry(self.arguments, name)
    }
}

impl Directive {
    /// The value of the argument with that name.
    pub fn argument(&self, name: &str) -> (r: Option<&Value>)
        ensures
            seqs::opt(r) == self@.argument(name@),
    {
        find_entry(&self.arguments, name)
    }
}

impl Value {
    /// The entries of an object value.
    pub fn as_object(&self) -> (r: Option<&Vec<(String, Value)>>)
        ensures
            r is Some <==> self@ is Object,
            r matches Some(entries) ==> self@ == ValueView::Object(seqs::deep(entries@))
                && ast::keys_ascend(seqs::deep(entries@)),
    {
        match self {
            Value::Object(entries) => Some(entries.as_vec()),
            _ => None,
        }
    }

    /// The items of a list value.
    pub fn as_list(&self) -> (r: Option<&Vec<Value>>)
        ensures
            r is Some <==> self@ is List,
            r matches Some(items) ==> self@ == ValueView::List(seqs::deep(items@)),
    {
        proof {
            ast::lemma_list_view(*self);
        }
        match self {
            Value::List(items) => Some(items),
            _ => None,
        }
    }

    /// The text of a string value.
    pub fn as_str(&self) -> (r: Option<&String>)
        ensures
            r is Some <==> self@ is String,
            r matches Some(s) ==> self@ == ValueView::String(s@),
    {
        match self {
            Value::String(s) => Some(s),
            _ => None,
        }
    }

    /// The name of an enum value.
    pub fn as_enum(&self) -> (r: Option<&String>)
        ensures
            r is Some <==> self@ is Enum,
            r matches Some(s) ==> self@ == ValueView::Enum(s@),
    {
        match self {
            Value::Enum(s) => Some(s),
            _ => None,
        }
    }
}

impl ObjectTypeView {
    /// Whether the `@entity` directive says that entities of the type never
    /// change once they are stored.
    pub open spec fn is_immutable(self) -> bool {
        match directive(self.directives, "entity"@) {
            Some(d) => d.argument("immutable"@) == Some(ValueView::Boolean(true)),
            None => false,
        }
    }
}

impl ObjectType {
    /// The field with that name.
    pub fn field(&self, name: &str) -> (r: Option<&Field>)
        ensures
            seqs::opt(r) == field(self@.fields, name@),
    {
        find_field(&self.fields, name)
    }

    /// The directive with that name.
    pub fn find_directive(&self, name: &str) -> (r: Option<&Directive>)
        ensures
            seqs::opt(r) == directive(self@.directives, name@),
    {
        find_directive(&self.directives, name)
    }

    /// Whether the `@entity` directive says that entities of the type never
    /// change once they are stored.
    pub fn is_immutable(&self) -> (r: bool)
        ensures
            r == self@.is_immutable(),
    {
        match self.find_directive("entity") {
            Some(d) => match d.argument("immutable") {
                Some(Value::Boolean(b)) => *b,
                _ => false,
            },
            None => false,
        }
    }
}

impl Field {
    /// The directive with that name.
    pub fn find_directive(&self, name: &str) -> (r: Option<&Directive>)
        ensures
            seqs::opt(r) == directive(self@.directives, name@),
    {
        find_directive(&self.directives, name)
    }
}

/// The name and the fields of an object or interface type.
pub struct TypeFields<'a> {
    pub name: &'a String,
    pub fields: &'a Vec<Field>,
}

/// What a `TypeFields` stands for.
pub struct TypeFieldsView {
    pub name: Seq<char>,
    pub fields: Seq<FieldView>,
}

impl<'a> View for TypeFields<'a> {
    type V = TypeFieldsView;

    open spec fn view(&self) -> TypeFieldsView {
        TypeFieldsView { name: self.name@, fields: seqs::deep(self.fields@) }
    }
}

/// The name and the fields of the object or interface type that a definition
/// defines.
pub open spec fn pick_fields() -> spec_fn(DefinitionView) -> Option<TypeFieldsView> {
    |d: DefinitionView|
        match d {
            DefinitionView::TypeDefinition(TypeDefinitionView::Object(t)) => Some(
                TypeFieldsView { name: t.name, fields: t.fields },
            ),
            DefinitionView::TypeDefinition(TypeDefinitionView::Interface(t)) => Some(
                TypeFieldsView { name: t.name, fields: t.fields },
            ),
            _ => None,
        }
}

/// Whether a later type has the same name as the type at `i`.
pub open spec fn shadowed(all: Seq<TypeFieldsView>, i: int) -> bool {
    exists|j: int| i < j < all.len() && #[trigger] all[j].name == all[i].name
}

/// Those of the first `n` types that no later type shadows.
pub open spec fn unshadowed(all: Seq<TypeFieldsView>, n: int) -> Seq<TypeFieldsView>
    decreases n,
{
    if n <= 0 {
        Seq::empty()
    } else if shadowed(all, n - 1) {
        unshadowed(all, n - 1)
    } else {
        unshadowed(all, n - 1).push(all[n - 1])
    }
}

/// The object and interface types of a document with their fields; of several
/// with one name the last counts.
pub open spec fn type_fields(doc: Seq<DefinitionView>) -> Seq<TypeFieldsView> {
    let all = seqs::collect(doc, pick_fields());
    unshadowed(all, all.len() as int)
}

/// The fields of a type, if it has that name.
pub open spec fn fields_named(name: Seq<char>) -> spec_fn(TypeFieldsView) -> Option<
    Seq<FieldView>,
> {
    |t: TypeFieldsView|
        if t.name == name {
            Some(t.fields)
        } else {
            None
        }
}

/// The fields of the object or interface type with that name.
pub open spec fn fields_of(doc: Seq<DefinitionView>, name: Seq<char>) -> Option<Seq<FieldView>> {
    seqs::find_map(type_fields(doc), fields_named(name))
}

/// The fields of the type with that name.
pub fn find_fields<'a>(types: &Vec<TypeFields<'a>>, name: &str) -> (r: Option<&'a Vec<Field>>)
    ensures
        r is Some <==> seqs::find_map(seqs::deep(types@), fields_named(name@)) is Some,
        r matches Some(fields) ==> seqs::find_map(seqs::deep(types@), fields_named(name@)) == Some(
            seqs::deep(fields@),
        ),
{
    let ghost all = seqs::deep(types@);
    let mut i: usize = 0;
    while i < types.len()
        invariant
            i <= types@.len(),
            all == seqs::deep(types@),
            seqs::find_map(all.take(i as int), fields_named(name@)) is None,
        decreases types@.len() - i,
    {
        proof {
            seqs::lemma_find_map_step(all, fields_named(name@), i as int);
        }
        if same(types[i].name.as_str(), name) {
            return Some(types[i].fields);
        }
        i += 1;
    }
    proof {
        seqs::lemma_take_all(all);
    }
    None
}

/// A fulltext search was asked for where only deterministic features are
/// allowed.
#[derive(Debug, Clone, Copy, PartialEq, Eq)]
pub struct NonDeterministicFulltext;

/// An object type or an interface.
#[derive(Debug)]
pub enum ObjectOrInterface<'a> {
    Object(&'a ObjectType),
    Interface(&'a InterfaceType),
}

/// What an `ObjectOrInterface` stands for.
pub enum ObjectOrInterfaceView {
    Object(ObjectTypeView),
    Interface(InterfaceTypeView),
}

impl<'a> View for ObjectOrInterface<'a> {
    type V = ObjectOrInterfaceView;

    open spec fn view(&self) -> ObjectOrInterfaceView {
        match self {
            ObjectOrInterface::Object(t) => ObjectOrInterfaceView::Object(t@),
            ObjectOrInterface::Interface(t) => ObjectOrInterfaceView::Interface(t@),
        }
    }
}

/// The first type with that name, where it is an object type or an interface.
pub open spec fn object_or_interface(doc: Seq<DefinitionView>, name: Seq<char>) -> Option<
    ObjectOrInterfaceView,
> {
    match named_type(doc, name) {
        Some(TypeDefinitionView::Object(t)) => Some(ObjectOrInterfaceView::Object(t)),
        Some(TypeDefinitionView::Interface(t)) => Some(ObjectOrInterfaceView::Interface(t)),
        _ => None,
    }
}

/// Keeps the directives that are `@fulltext`.
pub open spec fn pick_fulltext() -> spec_fn(DirectiveView) -> Option<DirectiveView> {
    directive_named("fulltext"@)
}

/// The `@fulltext` directives on the `_Schema_` type.
pub open spec fn fulltext_directives(doc: Seq<DefinitionView>) -> Seq<DirectiveView> {
    match object_type(doc, SCHEMA_TYPE_NAME@) {
        Some(t) => seqs::collect(t.directives, pick_fulltext()),
        None => Seq::empty(),
    }
}

/// The `@fulltext` directives of a list.
pub fn select_fulltext<'a>(directives: &'a Vec<Directive>) -> (r: Vec<&'a Directive>)
    ensures
        seqs::deep(r@) == seqs::collect(seqs::deep(directives@), pick_fulltext()),
{
    let ghost all = seqs::deep(directives@);
    let mut r: Vec<&'a Directive> = Vec::new();
    let mut i: usize = 0;
    while i < directives.len()
        invariant
            i <= directives@.len(),
            all == seqs::deep(directives@),
            seqs::deep(r@) == seqs::collect(all.take(i as int), pick_fulltext()),
        decreases directives@.len() - i,
    {
        proof {
            seqs::lemma_collect_step(all, pick_fulltext(), i as int);
        }
        if same(directives[i].name.as_str(), "fulltext") {
            r.push(&directives[i]);
        }
        i += 1;
    }
    proof {
        seqs::lemma_take_all(all);
    }
    r
}

impl Document {
    /// The object types, in order.
    pub fn get_object_type_definitions(&self) -> (r: Vec<&ObjectType>)
        ensures
            seqs::deep(r@) == object_types(self@),
    {
        let mut r: Vec<&ObjectType> = Vec::new();
        let mut i: usize = 0;
        while i < self.definitions.len()
            invariant
                i <= self.definitions@.len(),
                seqs::deep(r@) == seqs::collect(self@.take(i as int), pick_object()),
            decreases self.definitions@.len() - i,
        {
            proof {
                seqs::lemma_collect_step(self@, pick_object(), i as int);
            }
            if let Definition::TypeDefinition(TypeDefinition::Object(t)) = &self.definitions[i] {
                r.push(t);
            }
            i += 1;
        }
        proof {
            seqs::lemma_take_all(self@);
        }
        r
    }

    /// The interfaces, in order.
    pub fn get_interface_type_definitions(&self) -> (r: Vec<&InterfaceType>)
        ensures
            seqs::deep(r@) == interface_types(self@),
    {
        let mut r: Vec<&InterfaceType> = Vec::new();
        let mut i: usize = 0;
        while i < self.definitions.len()
            invariant
                i <= self.definitions@.len(),
                seqs::deep(r@) == seqs::collect(self@.take(i as int), pick_interface()),
            decreases self.definitions@.len() - i,
        {
            proof {
                seqs::lemma_collect_step(self@, pick_interface(), i as int);
            }
            if let Definition::TypeDefinition(TypeDefinition::Interface(t)) = &self.definitions[i] {
                r.push(t);
            }
            i += 1;
        }
        proof {
            seqs::lemma_take_all(self@);
        }
        r
    }

    /// The enum types, in order.
    pub fn get_enum_definitions(&self) -> (r: Vec<&EnumType>)
        ensures
            seqs::deep(r@) == enum_types(self@),
    {
        let mut r: Vec<&EnumType> = Vec::new();
        let mut i: usize = 0;
        while i < self.definitions.len()
            invariant
                i <= self.definitions@.len(),
                seqs::deep(r@) == seqs::collect(self@.take(i as int), pick_enum()),
            decreases self.definitions@.len() - i,
        {
            proof {
                seqs::lemma_collect_step(self@, pick_enum(), i as int);
            }
            if let Definition::TypeDefinition(TypeDefinition::Enum(t)) = &self.definitions[i] {
                r.push(t);
            }
            i += 1;
        }
        proof {
            seqs::lemma_take_all(self@);
        }
        r
    }

    /// The first object type with that name.
    pub fn get_object_type_definition(&self, name: &str) -> (r: Option<&ObjectType>)
        ensures
            seqs::opt(r) == object_type(self@, name@),
    {
        let types = self.get_object_type_definitions();
        let ghost all = seqs::deep(types@);
        let mut i: usize = 0;
        while i < types.len()
            invariant
                i <= types@.len(),
                all == seqs::deep(types@),
                all == object_types(self@),
                seqs::find_map(all.take(i as int), object_named(name@)) is None,
            decreases types@.len() - i,
        {
            proof {
                seqs::lemma_find_map_step(all, object_named(name@), i as int);
            }
            if same(types[i].name.as_str(), name) {
                return Some(types[i]);
            }
            i += 1;
        }
        proof {
            seqs::lemma_take_all(all);
        }
        None
    }

    /// The first interface with that name.
    pub fn find_interface(&self, name: &str) -> (r: Option<&InterfaceType>)
        ensures
            seqs::opt(r) == interface_type(self@, name@),
    {
        let mut i: usize = 0;
        while i < self.definitions.len()
            invariant
                i <= self.definitions@.len(),
                seqs::find_map(self@.take(i as int), interface_named(name@)) is None,
            decreases self.definitions@.len() - i,
        {
            proof {
                seqs::lemma_find_map_step(self@, interface_named(name@), i as int);
            }
            if let Definition::TypeDefinition(TypeDefinition::Interface(t)) = &self.definitions[i] {
                if same(t.name.as_str(), name) {
                    return Some(t);
                }
            }
            i += 1;
        }
        proof {
            seqs::lemma_take_all(self@);
        }
        None
    }

    /// The first type with that name, of whatever kind.
    pub fn get_named_type(&self, name: &str) -> (r: Option<&TypeDefinition>)
        ensures
            seqs::opt(r) == named_type(self@, name@),
    {
        let mut i: usize = 0;
        while i < self.definitions.len()
            invariant
                i <= self.definitions@.len(),
                seqs::find_map(self@.take(i as int), type_named(name@)) is None,
            decreases self.definitions@.len() - i,
        {
            proof {
                seqs::lemma_find_map_step(self@, type_named(name@), i as int);
            }
            if let Definition::TypeDefinition(t) = &self.definitions[i] {
                if same(t.name().as_str(), name) {
                    return Some(t);
                }
            }
            i += 1;
        }
        proof {
            seqs::lemma_take_all(self@);
        }
        None
    }

    /// The first type with that name, where it is an object type or an
    /// interface.
    pub fn object_or_interface(&self, name: &str) -> (r: Option<ObjectOrInterface<'_>>)
        ensures
            seqs::opt(r) == object_or_interface(self@, name@),
    {
        match self.get_named_type(name) {
            Some(TypeDefinition::Object(t)) => Some(ObjectOrInterface::Object(t)),
            Some(TypeDefinition::Interface(t)) => Some(ObjectOrInterface::Interface(t)),
            _ => None,
        }
    }

    /// The object type at which queries start.
    pub fn get_root_query_type(&self) -> (r: Option<&ObjectType>)
        ensures
            seqs::opt(r) == object_type(self@, "Query"@),
    {
        self.get_object_type_definition("Query")
    }

    /// The object type at which subscriptions start.
    pub fn get_root_subscription_type(&self) -> (r: Option<&ObjectType>)
        ensures
            seqs::opt(r) == object_type(self@, "Subscription"@),
    {
        self.get_object_type_definition("Subscription")
    }

    /// The object and interface types with their fields; of several with one
    /// name the last counts.
    pub fn get_object_and_interface_type_fields(&self) -> (r: Vec<TypeFields<'_>>)
        ensures
            seqs::deep(r@) == type_fields(self@),
    {
        let mut all: Vec<TypeFields<'_>> = Vec::new();
        let mut i: usize = 0;
        while i < self.definitions.len()
            invariant
                i <= self.definitions@.len(),
                seqs::deep(all@) == seqs::collect(self@.take(i as int), pick_fields()),
            decreases self.definitions@.len() - i,
        {
            proof {
                seqs::lemma_collect_step(self@, pick_fields(), i as int);
            }
            match &self.definitions[i] {
                Definition::TypeDefinition(TypeDefinition::Object(t)) => {
                    all.push(TypeFields { name: &t.name, fields: &t.fields });
                },
                Definition::TypeDefinition(TypeDefinition::Interface(t)) => {
                    all.push(TypeFields { name: &t.name, fields: &t.fields });
                },
                _ => {},
            }
            i += 1;
        }
        proof {
            seqs::lemma_take_all(self@);
        }
        let ghost every = seqs::deep(all@);
        let mut r: Vec<TypeFields<'_>> = Vec::new();
        let mut k: usize = 0;
        while k < all.len()
            invariant
                k <= all@.len(),
                every == seqs::deep(all@),
                seqs::deep(r@) == unshadowed(every, k as int),
            decreases all@.len() - k,
        {
            let mut later: bool = false;
            let mut j: usize = k + 1;
            while j < all.len()
                invariant
                    k < j <= all@.len(),
                    every == seqs::deep(all@),
                    later <==> exists|m: int|
                        k < m < j && #[trigger] every[m].name == every[k as int].name,
                decreases all@.len() - j,
            {
                if same(all[j].name.as_str(), all[k].name.as_str()) {
                    later = true;
                    assert(every[j as int].name == every[k as int].name);
                }
                j += 1;
            }
            assert(later == shadowed(every, k as int));
            if !later {
                r.push(TypeFields { name: all[k].name, fields: all[k].fields });
            }
            k += 1;
        }
        r
    }

    /// The `@fulltext` directives on the `_Schema_` type. Where fulltext search
    /// is not allowed, because its results are not deterministic, there may be
    /// none.
    pub fn get_fulltext_directives(&self, allow_non_deterministic: bool) -> (r: Result<
        Vec<&Directive>,
        NonDeterministicFulltext,
    >)
        ensures
            r is Ok <==> (allow_non_deterministic || fulltext_directives(self@).len() == 0),
            r matches Ok(directives) ==> seqs::deep(directives@) == fulltext_directives(self@),
    {
        let directives: Vec<&Directive> = match self.get_object_type_definition(SCHEMA_TYPE_NAME) {
            Some(t) => select_fulltext(&t.directives),
            None => Vec::new(),
        };
        assert(seqs::deep(directives@) =~= fulltext_directives(self@));
        if !allow_non_deterministic && directives.len() > 0 {
            Err(NonDeterministicFulltext)
        } else {
            Ok(directives)
        }
    }
}

} // verus!
