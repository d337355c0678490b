//! Validating the `@fulltext` directives of a document.
use vstd::prelude::*;
use crate::ast::{
    DefinitionView, Directive, DirectiveView, Document, Field, FieldView, ObjectType,
    ObjectTypeView, Value, ValueView,
};
use crate::document;
use crate::document::{SCHEMA_TYPE_NAME, select_fulltext};
use crate::errors::{SchemaValidationError, SchemaValidationErrorView};
use crate::fulltext;
use crate::fulltext::{FulltextAlgorithm, FulltextLanguage, find_value_entry};
use crate::inflect;
use crate::names::contains_name;
use crate::schema::Schema;
use crate::seqs;
use crate::store;
use crate::store::ValueType;
use crate::text::same;

verus! {

broadcast use crate::seqs::lemma_deep_push;

/// The errors that a check which finds one at most has found.
pub open spec fn at_most_one(e: Option<SchemaValidationErrorView>) -> Seq<
    SchemaValidationErrorView,
> {
    match e {
        Some(e) => seq![e],
        None => Seq::empty(),
    }
}

/// The names that a field takes: its own, and its singular and plural in camel
/// case.
pub open spec fn field_query_names() -> spec_fn(FieldView) -> Seq<Seq<char>> {
    |f: FieldView|
        seq![
            inflect::camel_case(f.name),
            inflect::camel_case(inflect::plural(f.name)),
            f.name,
        ]
}

/// The names of the query fields that are generated for an entity type: its
/// singular and plural in camel case. `_Schema_` is no entity type.
pub open spec fn entity_query_names(t: ObjectTypeView) -> Seq<Seq<char>> {
    if t.name == SCHEMA_TYPE_NAME@ {
        Seq::empty()
    } else {
        seq![inflect::camel_case(t.name), inflect::camel_case(inflect::plural(t.name))]
    }
}

/// The names that an object type takes: those of the query fields that are
/// generated for it, and then those that its fields take.
pub open spec fn object_query_names() -> spec_fn(ObjectTypeView) -> Seq<Seq<char>> {
    |t: ObjectTypeView| entity_query_names(t) + seqs::flat_map(t.fields, field_query_names())
}

/// The names that the object types of a document take: a search can have none of
/// them.
pub open spec fn query_names(doc: Seq<DefinitionView>) -> Seq<Seq<char>> {
    seqs::flat_map(document::object_types(doc), object_query_names())
}

/// Puts the names of the query fields that are generated for an entity type
/// behind others.
fn push_entity_query_names(names: &mut Vec<String>, t: &ObjectType)
    ensures
        seqs::deep(final(names)@) == seqs::deep(old(names)@) + entity_query_names(t@),
{
    let ghost before = seqs::deep(names@);
    let name = t.name.as_str();
    if !same(name, SCHEMA_TYPE_NAME) {
        names.push(inflector::cases::camelcase::to_camel_case(name));
        let several = inflector::string::pluralize::to_plural(name);
        names.push(inflector::cases::camelcase::to_camel_case(several.as_str()));
    }
    assert(seqs::deep(names@) =~= before + entity_query_names(t@));
}

/// Puts the names that fields take behind others.
fn push_field_query_names(names: &mut Vec<String>, fields: &Vec<Field>)
    ensures
        seqs::deep(final(names)@) == seqs::deep(old(names)@) + seqs::flat_map(
            seqs::deep(fields@),
            field_query_names(),
        ),
{
    let ghost all = seqs::deep(fields@);
    let ghost before = seqs::deep(names@);
    let ghost f = field_query_names();
    let mut i: usize = 0;
    assert(before + seqs::flat_map(all.take(0), f) =~= before);
    while i < fields.len()
        invariant
            i <= fields@.len(),
            all == seqs::deep(fields@),
            f == field_query_names(),
            seqs::deep(names@) == before + seqs::flat_map(all.take(i as int), f),
        decreases fields@.len() - i,
    {
        let name = fields[i].name.as_str();
        let ghost done = seqs::deep(names@);
        names.push(inflector::cases::camelcase::to_camel_case(name));
        let several = inflector::string::pluralize::to_plural(name);
        names.push(inflector::cases::camelcase::to_camel_case(several.as_str()));
        names.push(fields[i].name.clone());
        proof {
            assert(all[i as int] == fields@[i as int]@);
            seqs::lemma_flat_map_step(all, f, i as int);
            assert(seqs::deep(names@) =~= done + f(all[i as int]));
            assert(seqs::deep(names@) =~= before + seqs::flat_map(all.take(i + 1), f));
        }
        i += 1;
    }
    proof {
        seqs::lemma_take_all(all);
    }
}

/// The names that the object types of a document take.
pub fn list_query_names(doc: &Document) -> (r: Vec<String>)
    ensures
        seqs::deep(r@) == query_names(doc@),
{
    let objects = doc.get_object_type_definitions();
    let ghost all = seqs::deep(objects@);
    let ghost f = object_query_names();
    let mut r: Vec<String> = Vec::new();
    let mut i: usize = 0;
    assert(seqs::deep(r@) =~= seqs::flat_map(all.take(0), f));
    while i < objects.len()
        invariant
            i <= objects@.len(),
            all == seqs::deep(objects@),
            f == object_query_names(),
            seqs::deep(r@) == seqs::flat_map(all.take(i as int), f),
        decreases objects@.len() - i,
    {
        let t = objects[i];
        let ghost before = seqs::deep(r@);
        proof {
            assert(all[i as int] == t@);
            seqs::lemma_flat_map_step(all, f, i as int);
        }
        push_entity_query_names(&mut r, t);
        push_field_query_names(&mut r, &t.fields);
        assert(seqs::deep(r@) =~= before + f(t@));
        i += 1;
    }
    proof {
        seqs::lemma_take_all(all);
    }
    r
}

/// The name of a `@fulltext` directive, if it is that name.
pub open spec fn has_name(name: Seq<char>) -> spec_fn(DirectiveView) -> Option<Seq<char>> {
    |d: DirectiveView|
        if d.argument("name"@) == Some(ValueView::String(name)) {
            Some(name)
        } else {
            None
        }
}

/// What is wrong with the name of a `@fulltext` directive, one among those in
/// `directives`, where the names in `taken` are taken.
pub open spec fn name_error(
    directives: Seq<DirectiveView>,
    taken: Seq<Seq<char>>,
    d: DirectiveView,
) -> Option<SchemaValidationErrorView> {
    match d.argument("name"@) {
        Some(ValueView::String(name)) => if taken.contains(name) {
            Some(SchemaValidationErrorView::FulltextNameCollision(name))
        } else if seqs::collect(directives, has_name(name)).len() > 1 {
            Some(SchemaValidationErrorView::FulltextNameConflict(name))
        } else {
            None
        },
        _ => Some(SchemaValidationErrorView::FulltextNameUndefined),
    }
}

/// Checks the name of a `@fulltext` directive against the names that are taken
/// already, and against those of all `@fulltext` directives.
pub fn fulltext_name_errors(
    directives: &Vec<&Directive>,
    taken: &Vec<String>,
    d: &Directive,
) -> (r: Vec<SchemaValidationError>)
    ensures
        seqs::deep(r@) == at_most_one(
            name_error(seqs::deep(directives@), seqs::deep(taken@), d@),
        ),
{
    let mut r: Vec<SchemaValidationError> = Vec::new();
    let name = match d.argument("name") {
        Some(Value::String(name)) => name,
        _ => {
            r.push(SchemaValidationError::FulltextNameUndefined);
            assert(seqs::deep(r@) =~= seq![SchemaValidationErrorView::FulltextNameUndefined]);
            return r;
        },
    };
    if contains_name(taken, name.as_str()) {
        r.push(SchemaValidationError::FulltextNameCollision(name.clone()));
        assert(seqs::deep(r@) =~= seq![SchemaValidationErrorView::FulltextNameCollision(name@)]);
        return r;
    }
    let ghost all = seqs::deep(directives@);
    let ghost f = has_name(name@);
    let mut count: usize = 0;
    let mut i: usize = 0;
    while i < directives.len()
        invariant
            i <= directives@.len(),
            count <= i,
            all == seqs::deep(directives@),
            f == has_name(name@),
            count == seqs::collect(all.take(i as int), f).len(),
        decreases directives@.len() - i,
    {
        proof {
            assert(all[i as int] == directives@[i as int]@);
            seqs::lemma_collect_step(all, f, i as int);
        }
        if let Some(Value::String(other)) = directives[i].argument("name") {
            if same(other.as_str(), name.as_str()) {
                count += 1;
            }
        }
        i += 1;
    }
    proof {
        seqs::lemma_take_all(all);
    }
    if count > 1 {
        r.push(SchemaValidationError::FulltextNameConflict(name.clone()));
        assert(seqs::deep(r@) =~= seq![SchemaValidationErrorView::FulltextNameConflict(name@)]);
    }
    assert(seqs::deep(r@) =~= at_most_one(name_error(all, seqs::deep(taken@), d@)));
    r
}

impl Schema {
    /// Checks the name of a `@fulltext` directive of the `_Schema_` type.
    pub fn validate_fulltext_directive_name(&self, fulltext: &Directive) -> (r: Vec<
        SchemaValidationError,
    >)
        ensures
            seqs::deep(r@) == at_most_one(
                name_error(
                    document::fulltext_directives(self.document@),
                    query_names(self.document@),
                    fulltext@,
                ),
            ),
    {
        let taken = list_query_names(&self.document);
        let directives: Vec<&Directive> = match self.subgraph_schema_object_type() {
            Some(t) => select_fulltext(&t.directives),
            None => Vec::new(),
        };
        assert(seqs::deep(directives@) =~= document::fulltext_directives(self.document@));
        fulltext_name_errors(&directives, &taken, fulltext)
    }
}

/// What is wrong with the language of a `@fulltext` directive.
pub open spec fn language_error(d: DirectiveView) -> Option<SchemaValidationErrorView> {
    match d.argument("language"@) {
        Some(ValueView::Enum(code)) => if fulltext::language(code) is None {
            Some(SchemaValidationErrorView::FulltextLanguageInvalid(code))
        } else {
            None
        },
        _ => Some(SchemaValidationErrorView::FulltextLanguageUndefined),
    }
}

impl Schema {
    /// Checks the language of a `@fulltext` directive.
    pub fn validate_fulltext_directive_language(&self, d: &Directive) -> (r: Vec<
        SchemaValidationError,
    >)
        ensures
            seqs::deep(r@) == at_most_one(language_error(d@)),
    {
        let mut r: Vec<SchemaValidationError> = Vec::new();
        match d.argument("language") {
            Some(Value::Enum(code)) => if FulltextLanguage::try_from(code.as_str()).is_err() {
                r.push(SchemaValidationError::FulltextLanguageInvalid(code.clone()));
            },
            _ => {
                r.push(SchemaValidationError::FulltextLanguageUndefined);
            },
        }
        assert(seqs::deep(r@) =~= at_most_one(language_error(d@)));
        r
    }
}

/// What is wrong with the algorithm of a `@fulltext` directive.
pub open spec fn algorithm_error(d: DirectiveView) -> Option<SchemaValidationErrorView> {
    match d.argument("algorithm"@) {
        Some(ValueView::Enum(name)) => if fulltext::algorithm(name) is None {
            Some(SchemaValidationErrorView::FulltextAlgorithmInvalid(name))
        } else {
            None
        },
        _ => Some(SchemaValidationErrorView::FulltextAlgorithmUndefined),
    }
}

impl Schema {
    /// Checks the algorithm of a `@fulltext` directive.
    pub fn validate_fulltext_directive_algorithm(&self, d: &Directive) -> (r: Vec<
        SchemaValidationError,
    >)
        ensures
            seqs::deep(r@) == at_most_one(algorithm_error(d@)),
    {
        let mut r: Vec<SchemaValidationError> = Vec::new();
        match d.argument("algorithm") {
            Some(Value::Enum(name)) => if FulltextAlgorithm::try_from(name.as_str()).is_err() {
                r.push(SchemaValidationError::FulltextAlgorithmInvalid(name.clone()));
            },
            _ => {
                r.push(SchemaValidationError::FulltextAlgorithmUndefined);
            },
        }
        assert(seqs::deep(r@) =~= at_most_one(algorithm_error(d@)));
        r
    }
}

/// Whether a field has that name and holds strings.
pub open spec fn string_field(name: Seq<char>) -> spec_fn(FieldView) -> bool {
    |f: FieldView|
        f.name == name && store::value_type(f.field_type.base()) == Some(ValueType::String)
}

/// What is wrong with a field that is to be searched: it must be an object whose
/// `name` is that of a field of the entity type that holds strings.
pub open spec fn included_field_error(entity: ObjectTypeView) -> spec_fn(ValueView) -> Option<
    SchemaValidationErrorView,
> {
    |v: ValueView|
        match v {
            ValueView::Object(entries) => match document::entry(entries, "name"@) {
                Some(ValueView::String(name)) => if seqs::some(entity.fields, string_field(name)) {
                    None
                } else {
                    Some(SchemaValidationErrorView::FulltextIncludedFieldInvalid(name))
                },
                _ => Some(
                    SchemaValidationErrorView::FulltextIncludedFieldMissingRequiredProperty,
                ),
            },
            _ => Some(
                SchemaValidationErrorView::FulltextIncludeEntityMissingOrIncorrectAttributes,
            ),
        }
}

/// What is wrong with an entity type that is to be searched: it must be an object
/// with the name of an object type as its `entity`, and a list as its `fields`.
pub open spec fn included_entity_error(doc: Seq<DefinitionView>) -> spec_fn(ValueView) -> Option<
    SchemaValidationErrorView,
> {
    |v: ValueView|
        match v {
            ValueView::Object(entries) => match (
                document::entry(entries, "entity"@),
                document::entry(entries, "fields"@),
            ) {
                (
                    Some(ValueView::String(entity)),
                    Some(ValueView::List(fields)),
                ) => match document::object_type(doc, entity) {
                    Some(t) => seqs::find_map(fields, included_field_error(t)),
                    None => Some(SchemaValidationErrorView::FulltextIncludedEntityNotFound),
                },
                _ => Some(
                    SchemaValidationErrorView::FulltextIncludeEntityMissingOrIncorrectAttributes,
                ),
            },
            _ => Some(SchemaValidationErrorView::FulltextIncludeObjectMissing),
        }
}

/// What is wrong with the `include` argument of a `@fulltext` directive.
pub open spec fn includes_error(doc: Seq<DefinitionView>, d: DirectiveView) -> Option<
    SchemaValidationErrorView,
> {
    match d.argument("include"@) {
        Some(ValueView::List(objects)) => if objects.len() == 0 {
            Some(SchemaValidationErrorView::FulltextIncludeUndefined)
        } else {
            seqs::find_map(objects, included_entity_error(doc))
        },
        _ => Some(SchemaValidationErrorView::FulltextIncludeUndefined),
    }
}

/// Whether one of the fields has that name and holds strings.
fn has_string_field(fields: &Vec<Field>, name: &str) -> (r: bool)
    ensures
        r == seqs::some(seqs::deep(fields@), string_field(name@)),
{
    let ghost all = seqs::deep(fields@);
    let mut i: usize = 0;
    while i < fields.len()
        invariant
            i <= fields@.len(),
            all == seqs::deep(fields@),
            forall|j: int| 0 <= j < i ==> !#[trigger] string_field(name@)(all[j]),
        decreases fields@.len() - i,
    {
        let f = &fields[i];
        if let Some(ValueType::String) = ValueType::of_scalar(f.field_type.get_base_type()) {
            if same(f.name.as_str(), name) {
                assert(string_field(name@)(all[i as int]));
                return true;
            }
        }
        assert(!string_field(name@)(all[i as int]));
        i += 1;
    }
    false
}

/// What is wrong with a field that is to be searched.
fn find_included_field_error(entity: &ObjectType, v: &Value) -> (r: Option<SchemaValidationError>)
    ensures
        seqs::opt(r) == included_field_error(entity@)(v@),
{
    if v.as_object().is_none() {
        return Some(SchemaValidationError::FulltextIncludeEntityMissingOrIncorrectAttributes);
    }
    match find_value_entry(v, "name") {
        Some(Value::String(name)) => if has_string_field(&entity.fields, name.as_str()) {
            None
        } else {
            Some(SchemaValidationError::FulltextIncludedFieldInvalid(name.clone()))
        },
        _ => Some(SchemaValidationError::FulltextIncludedFieldMissingRequiredProperty),
    }
}

/// What is wrong with an entity type that is to be searched.
fn find_included_entity_error(doc: &Document, v: &Value) -> (r: Option<SchemaValidationError>)
    ensures
        seqs::opt(r) == included_entity_error(doc@)(v@),
{
    if v.as_object().is_none() {
        return Some(SchemaValidationError::FulltextIncludeObjectMissing);
    }
    let entity = match find_value_entry(v, "entity") {
        Some(Value::String(entity)) => entity,
        _ => {
            return Some(SchemaValidationError::FulltextIncludeEntityMissingOrIncorrectAttributes);
        },
    };
    let fields = match find_value_entry(v, "fields") {
        Some(fields) => match fields.as_list() {
            Some(fields) => fields,
            None => {
                return Some(
                    SchemaValidationError::FulltextIncludeEntityMissingOrIncorrectAttributes,
                );
            },
        },
        None => {
            return Some(SchemaValidationError::FulltextIncludeEntityMissingOrIncorrectAttributes);
        },
    };
    let t = match doc.get_object_type_definition(entity.as_str()) {
        Some(t) => t,
        None => {
            return Some(SchemaValidationError::FulltextIncludedEntityNotFound);
        },
    };
    let ghost all = seqs::deep(fields@);
    let ghost wrong = included_field_error(t@);
    let ghost result = included_entity_error(doc@)(v@);
    assert(result == seqs::find_map(all, wrong));
    let mut i: usize = 0;
    while i < fields.len()
        invariant
            i <= fields@.len(),
            all == seqs::deep(fields@),
            wrong == included_field_error(t@),
            result == included_entity_error(doc@)(v@),
            result == seqs::find_map(all, wrong),
            seqs::find_map(all.take(i as int), wrong) is None,
        decreases fields@.len() - i,
    {
        proof {
            assert(all[i as int] == fields@[i as int]@);
            seqs::lemma_find_map_step(all, wrong, i as int);
        }
        let e = find_included_field_error(t, &fields[i]);
        if e.is_some() {
            return e;
        }
        i += 1;
    }
    proof {
        seqs::lemma_take_all(all);
    }
    None
}

impl Schema {
    /// Checks the `include` argument of a `@fulltext` directive.
    pub fn validate_fulltext_directive_includes(&self, d: &Directive) -> (r: Vec<
        SchemaValidationError,
    >)
        ensures
            seqs::deep(r@) == at_most_one(includes_error(self.document@, d@)),
    {
        let mut r: Vec<SchemaValidationError> = Vec::new();
        let objects = match d.argument("include") {
            Some(v) => v.as_list(),
            None => None,
        };
        match objects {
            Some(objects) if objects.len() > 0 => {
                let ghost all = seqs::deep(objects@);
                let ghost wrong = included_entity_error(self.document@);
                let ghost result = includes_error(self.document@, d@);
                assert(result == seqs::find_map(all, wrong));
                let mut i: usize = 0;
                while i < objects.len()
                    invariant
                        i <= objects@.len(),
                        r@.len() == 0,
                        all == seqs::deep(objects@),
                        wrong == included_entity_error(self.document@),
                        result == includes_error(self.document@, d@),
                        result == seqs::find_map(all, wrong),
                        seqs::find_map(all.take(i as int), wrong) is None,
                    decreases objects@.len() - i,
                {
                    proof {
                        assert(all[i as int] == objects@[i as int]@);
                        seqs::lemma_find_map_step(all, wrong, i as int);
                    }
                    if let Some(e) = find_included_entity_error(&self.document, &objects[i]) {
                        r.push(e);
                        assert(seqs::deep(r@) =~= seq![e@]);
                        return r;
                    }
                    i += 1;
                }
                proof {
                    seqs::lemma_take_all(all);
                }
            },
            _ => {
                r.push(SchemaValidationError::FulltextIncludeUndefined);
            },
        }
        assert(seqs::deep(r@) =~= at_most_one(includes_error(self.document@, d@)));
        r
    }
}

/// What is wrong with a `@fulltext` directive, one among those in `directives`,
/// where the names in `taken` are taken.
pub open spec fn directive_errors(
    doc: Seq<DefinitionView>,
    directives: Seq<DirectiveView>,
    taken: Seq<Seq<char>>,
) -> spec_fn(DirectiveView) -> Seq<SchemaValidationErrorView> {
    |d: DirectiveView|
        at_most_one(name_error(directives, taken, d)) + at_most_one(language_error(d))
            + at_most_one(algorithm_error(d)) + at_most_one(includes_error(doc, d))
}

/// What is wrong with the `@fulltext` directives of a document where the names
/// in `taken` are taken.
pub open spec fn fulltext_errors(doc: Seq<DefinitionView>, taken: Seq<Seq<char>>) -> Seq<
    SchemaValidationErrorView,
> {
    let directives = document::fulltext_directives(doc);
    seqs::flat_map(directives, directive_errors(doc, directives, taken))
}

impl Schema {
    /// Checks the `@fulltext` directives of a document where the names in
    /// `taken` are taken.
    #[verifier::rlimit(40)]
    pub fn fulltext_directive_errors(&self, taken: &Vec<String>) -> (r: Vec<
        SchemaValidationError,
    >)
        ensures
            seqs::deep(r@) == fulltext_errors(self.document@, seqs::deep(taken@)),
    {
        let mut r: Vec<SchemaValidationError> = Vec::new();
        let t = match self.subgraph_schema_object_type() {
            Some(t) => t,
            None => {
                assert(seqs::deep(r@) =~= fulltext_errors(self.document@, seqs::deep(taken@)));
                return r;
            },
        };
        let directives = select_fulltext(&t.directives);
        let ghost all = seqs::deep(directives@);
        let ghost f = directive_errors(self.document@, all, seqs::deep(taken@));
        let mut i: usize = 0;
        assert(seqs::deep(r@) =~= seqs::flat_map(all.take(0), f));
        while i < directives.len()
            invariant
                i <= directives@.len(),
                all == seqs::deep(directives@),
                f == directive_errors(self.document@, all, seqs::deep(taken@)),
                seqs::deep(r@) == seqs::flat_map(all.take(i as int), f),
            decreases directives@.len() - i,
        {
            let d = directives[i];
            let ghost before = seqs::deep(r@);
            let mut names = fulltext_name_errors(&directives, taken, d);
            let mut languages = self.validate_fulltext_directive_language(d);
            let mut algorithms = self.validate_fulltext_directive_algorithm(d);
            let mut includes = self.validate_fulltext_directive_includes(d);
            proof {
                assert(all[i as int] == d@);
                seqs::lemma_flat_map_step(all, f, i as int);
                assert(seqs::deep(r@ + names@ + languages@ + algorithms@ + includes@) =~= before + f(
                    d@,
                ));
            }
            r.append(&mut names);
            r.append(&mut languages);
            r.append(&mut algorithms);
            r.append(&mut includes);
            i += 1;
        }
        proof {
            seqs::lemma_take_all(all);
        }
        r
    }
}

} // verus!
