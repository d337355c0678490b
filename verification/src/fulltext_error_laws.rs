//! What holds of the errors in `@fulltext` directives.
use vstd::prelude::*;
use crate::ast::{DefinitionView, DirectiveView, FieldView, ObjectTypeView, ValueView};
use crate::document;
use crate::errors::SchemaValidationErrorView;
use crate::fulltext_laws;
use crate::fulltext_validation;
use crate::inflect;
use crate::seqs;
use crate::validity_laws;

verus! {

/// Whether a directive has that name for its search.
pub open spec fn names_search(d: DirectiveView, name: Seq<char>) -> bool {
    d.argument("name"@) == Some(ValueView::String(name))
}

/// Whether two of the directives, which may be anywhere in the list, have that
/// name for their searches.
pub open spec fn names_twice(directives: Seq<DirectiveView>, name: Seq<char>) -> bool {
    exists|i: int, j: int|
        0 <= i < j < directives.len() && names_search(#[trigger] directives[i], name)
            && names_search(#[trigger] directives[j], name)
}

/// A name must be a string. One that is taken collides, whatever the other
/// directives have; one that is not conflicts exactly where two directives have it.
pub proof fn law_name_errors(
    directives: Seq<DirectiveView>,
    taken: Seq<Seq<char>>,
    d: DirectiveView,
    name: Seq<char>,
)
    ensures
        (forall|n: Seq<char>| !#[trigger] names_search(d, n)) ==> fulltext_validation::name_error(
            directives,
            taken,
            d,
        ) == Some(SchemaValidationErrorView::FulltextNameUndefined),
        names_search(d, name) && taken.contains(name) ==> fulltext_validation::name_error(
            directives,
            taken,
            d,
        ) == Some(SchemaValidationErrorView::FulltextNameCollision(name)),
        names_search(d, name) && !taken.contains(name) && names_twice(directives, name)
            ==> fulltext_validation::name_error(directives, taken, d) == Some(
            SchemaValidationErrorView::FulltextNameConflict(name),
        ),
        names_search(d, name) && !taken.contains(name) && !names_twice(directives, name)
            ==> fulltext_validation::name_error(directives, taken, d) is None,
{
    let f = fulltext_validation::has_name(name);
    if names_twice(directives, name) {
        let (i, j) = choose|i: int, j: int|
            0 <= i < j < directives.len() && names_search(#[trigger] directives[i], name)
                && names_search(#[trigger] directives[j], name);
        assert(f(directives[i]) is Some && f(directives[j]) is Some);
        seqs::lemma_collect_two(directives, f, i, j);
    }
    if seqs::collect(directives, f).len() > 1 {
        seqs::lemma_collect_several(directives, f);
        let (i, j) = choose|i: int, j: int|
            0 <= i < j < directives.len() && (#[trigger] f(directives[i])) is Some && (
            #[trigger] f(directives[j])) is Some;
        assert(names_search(directives[i], name) && names_search(directives[j], name));
    }
    if let Some(ValueView::String(n)) = d.argument("name"@) {
        assert(names_search(d, n));
    }
}

/// A language must be the code of one, written as an enum value.
pub proof fn law_language_errors(d: DirectiveView, code: Seq<char>)
    ensures
        fulltext_validation::language_error(d) is None <==> exists|c: Seq<char>| #[trigger]
            fulltext_laws::is_code(c) && d.argument("language"@) == Some(ValueView::Enum(c)),
        fulltext_validation::language_error(d) == Some(
            SchemaValidationErrorView::FulltextLanguageInvalid(code),
        ) <==> d.argument("language"@) == Some(ValueView::Enum(code)) && !fulltext_laws::is_code(
            code,
        ),
        fulltext_validation::language_error(d) == Some(
            SchemaValidationErrorView::FulltextLanguageUndefined,
        ) <==> !(d.argument("language"@) matches Some(ValueView::Enum(_))),
{
    if let Some(ValueView::Enum(c)) = d.argument("language"@) {
        fulltext_laws::law_codes(c);
        assert(d.argument("language"@) == Some(ValueView::Enum(c)));
    }
}

/// An algorithm must be one of the two, written as an enum value.
pub proof fn law_algorithm_errors(d: DirectiveView, name: Seq<char>)
    ensures
        fulltext_validation::algorithm_error(d) is None <==> (d.argument("algorithm"@) == Some(
            ValueView::Enum("rank"@),
        ) || d.argument("algorithm"@) == Some(ValueView::Enum("proximityRank"@))),
        fulltext_validation::algorithm_error(d) == Some(
            SchemaValidationErrorView::FulltextAlgorithmInvalid(name),
        ) <==> d.argument("algorithm"@) == Some(ValueView::Enum(name)) && name != "rank"@ && name
            != "proximityRank"@,
        fulltext_validation::algorithm_error(d) == Some(
            SchemaValidationErrorView::FulltextAlgorithmUndefined,
        ) <==> !(d.argument("algorithm"@) matches Some(ValueView::Enum(_))),
{
    if let Some(ValueView::Enum(n)) = d.argument("algorithm"@) {
        assert(d.argument("algorithm"@) == Some(ValueView::Enum(n)));
    }
}

/// Whether a type has a field with that name which holds strings: `ID` is one of
/// strings too, and lists of strings are searched as well.
pub open spec fn has_text(t: ObjectTypeView, name: Seq<char>) -> bool {
    exists|m: int|
        0 <= m < t.fields.len() && (#[trigger] t.fields[m]).name == name && (
        t.fields[m].field_type.base() == "String"@ || t.fields[m].field_type.base() == "ID"@)
}

/// Whether a field can be searched: it is an object with the name of a field of
/// the type which holds strings.
pub open spec fn is_searchable(t: ObjectTypeView, v: ValueView) -> bool {
    exists|name: Seq<char>| #[trigger]
        fulltext_laws::gives(v, "name"@, ValueView::String(name)) && has_text(t, name)
}

/// Whether a search can go over what an object says: the object names an object
/// type of the document, and lists fields of it that can be searched.
pub open spec fn is_searched_well(doc: Seq<DefinitionView>, v: ValueView) -> bool {
    exists|entity: Seq<char>, fields: Seq<ValueView>|
        #[trigger] fulltext_laws::gives(v, "entity"@, ValueView::String(entity))
            && #[trigger] fulltext_laws::gives(v, "fields"@, ValueView::List(fields))
            && (document::object_type(doc, entity) matches Some(t) && forall|k: int|
            0 <= k < fields.len() ==> is_searchable(t, #[trigger] fields[k]))
}

proof fn lemma_text(t: ObjectTypeView, name: Seq<char>)
    ensures
        seqs::some(t.fields, fulltext_validation::string_field(name)) == has_text(t, name),
{
    let p = fulltext_validation::string_field(name);
    reveal_strlit("Boolean");
    reveal_strlit("BigInt");
    reveal_strlit("Bytes");
    reveal_strlit("BigDecimal");
    reveal_strlit("Int");
    reveal_strlit("String");
    reveal_strlit("ID");
    assert("String"@.len() == 6 && "ID"@.len() == 2);
    assert("String"@[0] == 'S' && "BigInt"@[0] == 'B');
    assert forall|m: int| 0 <= m < t.fields.len() implies p(#[trigger] t.fields[m]) == (
    t.fields[m].name == name && (t.fields[m].field_type.base() == "String"@
        || t.fields[m].field_type.base() == "ID"@)) by {}
    if has_text(t, name) {
        let m = choose|m: int|
            0 <= m < t.fields.len() && (#[trigger] t.fields[m]).name == name && (
            t.fields[m].field_type.base() == "String"@ || t.fields[m].field_type.base() == "ID"@);
        assert(p(t.fields[m]));
    }
    if seqs::some(t.fields, p) {
        let m = choose|m: int| 0 <= m < t.fields.len() && #[trigger] p(t.fields[m]);
        assert(t.fields[m].name == name);
    }
}

/// A field of a search is refused exactly where it cannot be searched: for what
/// it is where it is no object, for its name where that is none or no string, and
/// else for the field that it names.
pub proof fn law_included_field_errors(t: ObjectTypeView, v: ValueView, name: Seq<char>)
    ensures
        fulltext_validation::included_field_error(t)(v) is None <==> is_searchable(t, v),
        !(v is Object) ==> fulltext_validation::included_field_error(t)(v) == Some(
            SchemaValidationErrorView::FulltextIncludeEntityMissingOrIncorrectAttributes,
        ),
        v is Object && !fulltext_laws::is_named(v) ==> fulltext_validation::included_field_error(t)(
            v,
        ) == Some(SchemaValidationErrorView::FulltextIncludedFieldMissingRequiredProperty),
        fulltext_laws::gives(v, "name"@, ValueView::String(name)) && !has_text(t, name)
            ==> fulltext_validation::included_field_error(t)(v) == Some(
            SchemaValidationErrorView::FulltextIncludedFieldInvalid(name),
        ),
{
    if let ValueView::Object(entries) = v {
        if let Some(ValueView::String(n)) = document::entry(entries, "name"@) {
            assert(fulltext_laws::gives(v, "name"@, ValueView::String(n)));
            lemma_text(t, n);
        }
    }
}

/// What is wrong with an object that says what is searched is that it is none,
/// that it names no type or lists no fields, that the document has no such object
/// type, or what is wrong with the first of its fields that cannot be searched.
pub proof fn law_included_entity_errors(
    doc: Seq<DefinitionView>,
    v: ValueView,
    entity: Seq<char>,
    fields: Seq<ValueView>,
    k: int,
)
    ensures
        fulltext_validation::included_entity_error(doc)(v) is None <==> is_searched_well(doc, v),
        !(v is Object) ==> fulltext_validation::included_entity_error(doc)(v) == Some(
            SchemaValidationErrorView::FulltextIncludeObjectMissing,
        ),
        v is Object && ((forall|e: Seq<char>|
            !#[trigger] fulltext_laws::gives(v, "entity"@, ValueView::String(e))) || (forall|
            l: Seq<ValueView>,
        |
            !#[trigger] fulltext_laws::gives(v, "fields"@, ValueView::List(l))))
            ==> fulltext_validation::included_entity_error(doc)(v) == Some(
            SchemaValidationErrorView::FulltextIncludeEntityMissingOrIncorrectAttributes,
        ),
        fulltext_laws::gives(v, "entity"@, ValueView::String(entity)) && fulltext_laws::gives(
            v,
            "fields"@,
            ValueView::List(fields),
        ) ==> match document::object_type(doc, entity) {
            None => fulltext_validation::included_entity_error(doc)(v) == Some(
                SchemaValidationErrorView::FulltextIncludedEntityNotFound,
            ),
            Some(t) => 0 <= k < fields.len() && !is_searchable(t, fields[k]) && (forall|j: int|
                0 <= j < k ==> is_searchable(t, #[trigger] fields[j]))
                ==> fulltext_validation::included_entity_error(doc)(v)
                == fulltext_validation::included_field_error(t)(fields[k]),
        },
{
    if let ValueView::Object(entries) = v {
        match (document::entry(entries, "entity"@), document::entry(entries, "fields"@)) {
            (Some(ValueView::String(e)), Some(ValueView::List(l))) => {
                assert(fulltext_laws::gives(v, "entity"@, ValueView::String(e)));
                assert(fulltext_laws::gives(v, "fields"@, ValueView::List(l)));
                if let Some(t) = document::object_type(doc, e) {
                    let f = fulltext_validation::included_field_error(t);
                    seqs::lemma_find_map_some(l, f);
                    assert forall|j: int| 0 <= j < l.len() implies (f(#[trigger] l[j]) is None
                        == is_searchable(t, l[j])) by {
                        law_included_field_errors(t, l[j], e);
                    }
                    if seqs::find_map(l, f) is None {
                        assert forall|j: int| 0 <= j < l.len() implies is_searchable(
                            t,
                            #[trigger] l[j],
                        ) by {
                            assert(f(l[j]) is None);
                        }
                    }
                    if e == entity && l == fields && 0 <= k < fields.len() && !is_searchable(
                        t,
                        fields[k],
                    ) && (forall|j: int| 0 <= j < k ==> is_searchable(t, #[trigger] fields[j])) {
                        assert forall|j: int| 0 <= j < k implies (#[trigger] f(l[j])) is None by {
                            assert(is_searchable(t, l[j]));
                        }
                        seqs::lemma_find_map_at(l, f, k);
                    }
                }
            },
            _ => {},
        }
    }
}

/// Whether an `include` argument is as it has to be: it lists objects, one at
/// least, over each of which a search can go.
pub open spec fn searches_well(doc: Seq<DefinitionView>, d: DirectiveView) -> bool {
    d.argument("include"@) matches Some(ValueView::List(objects)) && objects.len() > 0 && forall|
        i: int,
    |
        0 <= i < objects.len() ==> is_searched_well(doc, #[trigger] objects[i])
}

/// What is wrong with an `include` argument is that it lists nothing, or what is
/// wrong with the first of its objects over which no search can go.
pub proof fn law_includes_errors(doc: Seq<DefinitionView>, d: DirectiveView, i: int)
    ensures
        fulltext_validation::includes_error(doc, d) is None <==> searches_well(doc, d),
        match d.argument("include"@) {
            Some(ValueView::List(objects)) => {
                &&& objects.len() == 0 ==> fulltext_validation::includes_error(doc, d) == Some(
                    SchemaValidationErrorView::FulltextIncludeUndefined,
                )
                &&& 0 <= i < objects.len() && !is_searched_well(doc, objects[i]) && (forall|j: int|
                    0 <= j < i ==> is_searched_well(doc, #[trigger] objects[j]))
                    ==> fulltext_validation::includes_error(doc, d)
                    == fulltext_validation::included_entity_error(doc)(objects[i])
            },
            _ => fulltext_validation::includes_error(doc, d) == Some(
                SchemaValidationErrorView::FulltextIncludeUndefined,
            ),
        },
{
    if let Some(ValueView::List(objects)) = d.argument("include"@) {
        let f = fulltext_validation::included_entity_error(doc);
        seqs::lemma_find_map_some(objects, f);
        assert forall|j: int| 0 <= j < objects.len() implies (f(#[trigger] objects[j]) is None
            == is_searched_well(doc, objects[j])) by {
            law_included_entity_errors(doc, objects[j], Seq::empty(), Seq::empty(), 0);
        }
        if seqs::find_map(objects, f) is None {
            assert forall|j: int| 0 <= j < objects.len() implies is_searched_well(
                doc,
                #[trigger] objects[j],
            ) by {
                assert(f(objects[j]) is None);
            }
        }
        if 0 <= i < objects.len() && !is_searched_well(doc, objects[i]) && (forall|j: int|
            0 <= j < i ==> is_searched_well(doc, #[trigger] objects[j])) {
            assert forall|j: int| 0 <= j < i implies (#[trigger] f(objects[j])) is None by {
                assert(is_searched_well(doc, objects[j]));
            }
            seqs::lemma_find_map_at(objects, f, i);
        }
    }
}

/// What is wrong with the directives comes out directive by directive, and of
/// each what is wrong with its name, its language, its algorithm and its `include`
/// argument, in this order.
pub proof fn law_order_of_fulltext_errors(doc: Seq<DefinitionView>, taken: Seq<Seq<char>>)
    ensures
        fulltext_validation::fulltext_errors(doc, taken) == seqs::flat_map(
            document::fulltext_directives(doc),
            |d: DirectiveView|
                validity_laws::if_any(
                    fulltext_validation::name_error(document::fulltext_directives(doc), taken, d),
                ) + validity_laws::if_any(fulltext_validation::language_error(d))
                    + validity_laws::if_any(fulltext_validation::algorithm_error(d))
                    + validity_laws::if_any(fulltext_validation::includes_error(doc, d)),
        ),
{
    let ds = document::fulltext_directives(doc);
    seqs::lemma_flat_map_same(
        ds,
        ds,
        fulltext_validation::directive_errors(doc, ds, taken),
        |d: DirectiveView|
            validity_laws::if_any(fulltext_validation::name_error(ds, taken, d))
                + validity_laws::if_any(fulltext_validation::language_error(d))
                + validity_laws::if_any(fulltext_validation::algorithm_error(d))
                + validity_laws::if_any(fulltext_validation::includes_error(doc, d)),
    );
}

/// Whether a name is that of a query field for a type: the name of the type in
/// camel case, as it is or in the plural.
pub open spec fn is_query_field(name: Seq<char>, of: Seq<char>) -> bool {
    name == inflect::camel_case(of) || name == inflect::camel_case(inflect::plural(of))
}

/// Whether an object type takes a name: with a query field for it, unless it is
/// `_Schema_`, or with one of its fields.
pub open spec fn takes(t: ObjectTypeView, name: Seq<char>) -> bool {
    ||| t.name != "_Schema_"@ && is_query_field(name, t.name)
    ||| exists|j: int|
        0 <= j < t.fields.len() && {
            ||| (#[trigger] t.fields[j]).name == name
            ||| is_query_field(name, t.fields[j].name)
        }
}

/// A name is taken exactly where one of the object types takes it.
pub proof fn law_query_names(doc: Seq<DefinitionView>, name: Seq<char>)
    ensures
        fulltext_validation::query_names(doc).contains(name) <==> exists|i: int|
            0 <= i < document::object_types(doc).len() && takes(
                #[trigger] document::object_types(doc)[i],
                name,
            ),
{
    let all = document::object_types(doc);
    let f = fulltext_validation::object_query_names();
    seqs::lemma_flat_map_contains(all, f, name);
    assert forall|i: int| 0 <= i < all.len() implies f(#[trigger] all[i]).contains(name) == takes(
        all[i],
        name,
    ) by {
        lemma_takes(all[i], name);
    }
    if exists|i: int| 0 <= i < all.len() && takes(#[trigger] all[i], name) {
        let i = choose|i: int| 0 <= i < all.len() && takes(#[trigger] all[i], name);
        assert(f(all[i]).contains(name));
    }
}

proof fn lemma_takes(t: ObjectTypeView, name: Seq<char>)
    ensures
        fulltext_validation::object_query_names()(t).contains(name) == takes(t, name),
{
    let g = fulltext_validation::field_query_names();
    let own = fulltext_validation::entity_query_names(t);
    let rest = seqs::flat_map(t.fields, g);
    let all = own + rest;
    assert forall|f: FieldView| #[trigger] g(f).contains(name) == (f.name == name
        || is_query_field(name, f.name)) by {
        let names = g(f);
        assert(names.len() == 3);
        if f.name == name {
            assert(names[2] == name);
        }
        if name == inflect::camel_case(f.name) {
            assert(names[0] == name);
        }
        if name == inflect::camel_case(inflect::plural(f.name)) {
            assert(names[1] == name);
        }
    }
    seqs::lemma_flat_map_contains(t.fields, g, name);
    if takes(t, name) {
        if t.name != "_Schema_"@ && is_query_field(name, t.name) {
            if name == inflect::camel_case(t.name) {
                assert(all[0] == name);
            } else {
                assert(all[1] == name);
            }
        } else {
            let j = choose|j: int|
                0 <= j < t.fields.len() && {
                    ||| (#[trigger] t.fields[j]).name == name
                    ||| is_query_field(name, t.fields[j].name)
                };
            assert(g(t.fields[j]).contains(name));
            let m = choose|m: int| 0 <= m < rest.len() && rest[m] == name;
            assert(all[own.len() + m] == name);
        }
    }
    if all.contains(name) {
        let m = choose|m: int| 0 <= m < all.len() && all[m] == name;
        if m >= own.len() {
            assert(rest[m - own.len()] == name);
            let j = choose|j: int|
                0 <= j < t.fields.len() && (#[trigger] g(t.fields[j])).contains(name);
            assert(t.fields[j].name == name || is_query_field(name, t.fields[j].name));
        }
    }
}

} // verus!
