//! What holds of fulltext searches: of their languages, and of those that valid
//! `@fulltext` directives define.
use vstd::prelude::*;
use crate::ast::{DefinitionView, DirectiveView, FieldView, ObjectTypeView, ValueView};
use crate::document;
use crate::fulltext;
use crate::fulltext::{FulltextAlgorithm, FulltextDefinitionView, FulltextLanguage};
use crate::fulltext_validation;
use crate::seqs;

verus! {

/// Whether a text is a string literal of SQL that holds lower-case letters of
/// ASCII alone, so that nothing in it ends it early.
pub open spec fn is_plain_sql_literal(s: Seq<char>) -> bool {
    &&& s.len() >= 2
    &&& s[0] == '\''
    &&& s[s.len() - 1] == '\''
    &&& forall|i: int| 0 < i < s.len() - 1 ==> 'a' <= #[trigger] s[i] && s[i] <= 'z'
}

/// The first two letters of a language in SQL.
spec fn initials(l: FulltextLanguage) -> (char, char) {
    match l {
        FulltextLanguage::Simple => ('s', 'i'),
        FulltextLanguage::Danish => ('d', 'a'),
        FulltextLanguage::Dutch => ('d', 'u'),
        FulltextLanguage::English => ('e', 'n'),
        FulltextLanguage::Finnish => ('f', 'i'),
        FulltextLanguage::French => ('f', 'r'),
        FulltextLanguage::German => ('g', 'e'),
        FulltextLanguage::Hungarian => ('h', 'u'),
        FulltextLanguage::Italian => ('i', 't'),
        FulltextLanguage::Norwegian => ('n', 'o'),
        FulltextLanguage::Portugese => ('p', 'o'),
        FulltextLanguage::Romanian => ('r', 'o'),
        FulltextLanguage::Russian => ('r', 'u'),
        FulltextLanguage::Spanish => ('s', 'p'),
        FulltextLanguage::Swedish => ('s', 'w'),
        FulltextLanguage::Turkish => ('t', 'u'),
    }
}

proof fn lemma_sql(l: FulltextLanguage)
    ensures
        is_plain_sql_literal(l.sql()),
        l.sql()[1] == initials(l).0,
        l.sql()[2] == initials(l).1,
{
    match l {
        FulltextLanguage::Simple => {
            reveal_strlit("'simple'");
        },
        FulltextLanguage::Danish => {
            reveal_strlit("'danish'");
        },
        FulltextLanguage::Dutch => {
            reveal_strlit("'dutch'");
        },
        FulltextLanguage::English => {
            reveal_strlit("'english'");
        },
        FulltextLanguage::Finnish => {
            reveal_strlit("'finnish'");
        },
        FulltextLanguage::French => {
            reveal_strlit("'french'");
        },
        FulltextLanguage::German => {
            reveal_strlit("'german'");
        },
        FulltextLanguage::Hungarian => {
            reveal_strlit("'hungarian'");
        },
        FulltextLanguage::Italian => {
            reveal_strlit("'italian'");
        },
        FulltextLanguage::Norwegian => {
            reveal_strlit("'norwegian'");
        },
        FulltextLanguage::Portugese => {
            reveal_strlit("'portugese'");
        },
        FulltextLanguage::Romanian => {
            reveal_strlit("'romanian'");
        },
        FulltextLanguage::Russian => {
            reveal_strlit("'russian'");
        },
        FulltextLanguage::Spanish => {
            reveal_strlit("'spanish'");
        },
        FulltextLanguage::Swedish => {
            reveal_strlit("'swedish'");
        },
        FulltextLanguage::Turkish => {
            reveal_strlit("'turkish'");
        },
    }
}

/// A language may stand in a query as it is.
pub proof fn law_languages_are_plain_in_sql(l: FulltextLanguage)
    ensures
        is_plain_sql_literal(l.sql()),
{
    lemma_sql(l);
}

/// Different languages are different in SQL.
pub proof fn law_languages_differ_in_sql(a: FulltextLanguage, b: FulltextLanguage)
    requires
        a.sql() == b.sql(),
    ensures
        a == b,
{
    lemma_sql(a);
    lemma_sql(b);
}

/// A language has no two codes.
pub proof fn law_language_has_one_code(a: Seq<char>, b: Seq<char>)
    requires
        fulltext::language(a) is Some,
        fulltext::language(a) == fulltext::language(b),
    ensures
        a == b,
{
}

/// The code of a language.
pub open spec fn code(l: FulltextLanguage) -> Seq<char> {
    match l {
        FulltextLanguage::Simple => "simple"@,
        FulltextLanguage::Danish => "da"@,
        FulltextLanguage::Dutch => "nl"@,
        FulltextLanguage::English => "en"@,
        FulltextLanguage::Finnish => "fi"@,
        FulltextLanguage::French => "fr"@,
        FulltextLanguage::German => "de"@,
        FulltextLanguage::Hungarian => "hu"@,
        FulltextLanguage::Italian => "it"@,
        FulltextLanguage::Norwegian => "no"@,
        FulltextLanguage::Portugese => "pt"@,
        FulltextLanguage::Romanian => "ro"@,
        FulltextLanguage::Russian => "ru"@,
        FulltextLanguage::Spanish => "es"@,
        FulltextLanguage::Swedish => "sv"@,
        FulltextLanguage::Turkish => "tr"@,
    }
}

/// Each language has a code.
pub proof fn law_language_has_a_code(l: FulltextLanguage)
    ensures
        fulltext::language(code(l)) == Some(l),
{
    reveal_strlit("simple");
    reveal_strlit("da");
    reveal_strlit("nl");
    reveal_strlit("en");
    reveal_strlit("fi");
    reveal_strlit("fr");
    reveal_strlit("de");
    reveal_strlit("hu");
    reveal_strlit("it");
    reveal_strlit("no");
    reveal_strlit("pt");
    reveal_strlit("ro");
    reveal_strlit("ru");
    reveal_strlit("es");
    reveal_strlit("sv");
    reveal_strlit("tr");
    let c = code(l);
    assert(c.len() == "simple"@.len() <==> l == FulltextLanguage::Simple);
    assert(l == FulltextLanguage::Simple || c =~= seq![c[0], c[1]]);
}

/// An algorithm has exactly one name.
pub proof fn law_algorithm_has_one_name(a: Seq<char>, b: Seq<char>)
    requires
        fulltext::algorithm(a) is Some,
        fulltext::algorithm(a) == fulltext::algorithm(b),
    ensures
        a == b,
{
}

/// Nothing is wrong with any of the directives where nothing is with all.
proof fn lemma_directive_valid(doc: Seq<DefinitionView>, taken: Seq<Seq<char>>, i: int)
    requires
        fulltext_validation::fulltext_errors(doc, taken).len() == 0,
        0 <= i < document::fulltext_directives(doc).len(),
    ensures
        ({
            let ds = document::fulltext_directives(doc);
            &&& fulltext_validation::name_error(ds, taken, ds[i]) is None
            &&& fulltext_validation::language_error(ds[i]) is None
            &&& fulltext_validation::algorithm_error(ds[i]) is None
            &&& fulltext_validation::includes_error(doc, ds[i]) is None
        }),
{
    let ds = document::fulltext_directives(doc);
    let f = fulltext_validation::directive_errors(doc, ds, taken);
    seqs::lemma_flat_map_empty(ds, f);
    assert(f(ds[i]).len() == 0);
}

/// The objects of an `include` argument with which nothing is wrong.
proof fn lemma_object_valid(doc: Seq<DefinitionView>, d: DirectiveView, j: int)
    requires
        fulltext_validation::includes_error(doc, d) is None,
        d.argument("include"@) matches Some(ValueView::List(objects)) && 0 <= j < objects.len(),
    ensures
        ({
            let v = d.argument("include"@)->0->List_0[j];
            &&& fulltext::value_entry(v, "entity"@) matches Some(ValueView::String(entity))
            &&& fulltext::value_entry(v, "fields"@) matches Some(ValueView::List(fields))
            &&& document::object_type(doc, entity) matches Some(t)
            &&& forall|k: int|
                0 <= k < fields.len() ==> (fulltext::field_name()(#[trigger] fields[k]) matches Some(
                    name,
                ) && seqs::some(t.fields, fulltext_validation::string_field(name)))
        }),
{
    let objects = d.argument("include"@)->0->List_0;
    let v = objects[j];
    let f = fulltext_validation::included_entity_error(doc);
    seqs::lemma_find_map_some(objects, f);
    assert(f(v) is None);
    let entity = fulltext::value_entry(v, "entity"@)->0->String_0;
    let fields = fulltext::value_entry(v, "fields"@)->0->List_0;
    let t = document::object_type(doc, entity)->0;
    let g = fulltext_validation::included_field_error(t);
    seqs::lemma_find_map_some(fields, g);
    assert forall|k: int| 0 <= k < fields.len() implies (fulltext::field_name()(
        #[trigger] fields[k],
    ) matches Some(name) && seqs::some(t.fields, fulltext_validation::string_field(name))) by {
        assert(g(fields[k]) is None);
    }
}

/// A `@fulltext` directive with which nothing is wrong defines a search, which
/// has the name of the directive, which was not taken.
pub proof fn law_valid_directive_defines_search(
    doc: Seq<DefinitionView>,
    taken: Seq<Seq<char>>,
    i: int,
)
    requires
        fulltext_validation::fulltext_errors(doc, taken).len() == 0,
        0 <= i < document::fulltext_directives(doc).len(),
    ensures
        ({
            let d = document::fulltext_directives(doc)[i];
            &&& fulltext::fulltext_definition(d) matches Some(definition)
            &&& d.argument("name"@) == Some(ValueView::String(definition.name))
            &&& !taken.contains(definition.name)
        }),
{
    let d = document::fulltext_directives(doc)[i];
    lemma_directive_valid(doc, taken, i);
    lemma_object_valid(doc, d, 0);
    let fields = fulltext::first_fields(d)->0;
    fulltext::lemma_all_named(fields);
}

/// Where nothing is wrong with the `@fulltext` directives of a document, the
/// searches over any entity type can be read off it.
pub proof fn law_valid_document_defines_searches(
    doc: Seq<DefinitionView>,
    taken: Seq<Seq<char>>,
    entity: Seq<char>,
)
    requires
        fulltext_validation::fulltext_errors(doc, taken).len() == 0,
    ensures
        fulltext::defines_searches(doc, entity),
{
    let ds = document::fulltext_directives(doc);
    assert forall|i: int| 0 <= i < ds.len() && fulltext::covers(
        #[trigger] ds[i],
        entity,
    ) implies fulltext::fulltext_definition(ds[i]) is Some by {
        law_valid_directive_defines_search(doc, taken, i);
    }
}

/// No two searches of a document with whose `@fulltext` directives nothing is
/// wrong have the same name.
pub proof fn law_searches_have_distinct_names(
    doc: Seq<DefinitionView>,
    taken: Seq<Seq<char>>,
    i: int,
    j: int,
)
    requires
        fulltext_validation::fulltext_errors(doc, taken).len() == 0,
        0 <= i < j < document::fulltext_directives(doc).len(),
    ensures
        ({
            let ds = document::fulltext_directives(doc);
            &&& fulltext::fulltext_definition(ds[i]) matches Some(a)
            &&& fulltext::fulltext_definition(ds[j]) matches Some(b)
            &&& a.name != b.name
        }),
{
    let ds = document::fulltext_directives(doc);
    law_valid_directive_defines_search(doc, taken, i);
    law_valid_directive_defines_search(doc, taken, j);
    lemma_directive_valid(doc, taken, i);
    let name = fulltext::fulltext_definition(ds[i])->0.name;
    if fulltext::fulltext_definition(ds[j])->0.name == name {
        seqs::lemma_collect_two(ds, fulltext_validation::has_name(name), i, j);
    }
}

/// A search goes over fields that hold strings, of the object type that the first
/// object of its `include` argument names.
pub proof fn law_searches_go_over_strings(
    doc: Seq<DefinitionView>,
    taken: Seq<Seq<char>>,
    i: int,
    name: Seq<char>,
)
    requires
        fulltext_validation::fulltext_errors(doc, taken).len() == 0,
        0 <= i < document::fulltext_directives(doc).len(),
        fulltext::fulltext_definition(document::fulltext_directives(doc)[i]) matches Some(definition)
            && definition.included_fields.contains(name),
    ensures
        ({
            let d = document::fulltext_directives(doc)[i];
            &&& d.argument("include"@) matches Some(ValueView::List(objects))
            &&& fulltext::value_entry(objects[0], "entity"@) matches Some(ValueView::String(entity))
            &&& document::object_type(doc, entity) matches Some(t)
            &&& seqs::some(t.fields, fulltext_validation::string_field(name))
        }),
{
    let d = document::fulltext_directives(doc)[i];
    law_valid_directive_defines_search(doc, taken, i);
    lemma_directive_valid(doc, taken, i);
    lemma_object_valid(doc, d, 0);
    let fields = fulltext::first_fields(d)->0;
    let f = fulltext::field_name();
    assert(seqs::collect(fields, f).contains(name));
    seqs::lemma_collect_contains(fields, f, name);
    let k = choose|k: int| 0 <= k < fields.len() && #[trigger] f(fields[k]) == Some(name);
    assert(f(fields[k]) == Some(name));
}

/// No search has the name of a query field that is generated for an entity type,
/// or a name that a field of an object type takes.
pub proof fn law_searches_avoid_query_fields(
    doc: Seq<DefinitionView>,
    i: int,
    t: ObjectTypeView,
    field: FieldView,
)
    requires
        fulltext_validation::fulltext_errors(doc, fulltext_validation::query_names(doc)).len() == 0,
        0 <= i < document::fulltext_directives(doc).len(),
        document::object_types(doc).contains(t),
    ensures
        fulltext::fulltext_definition(document::fulltext_directives(doc)[i]) matches Some(definition)
            && !fulltext_validation::entity_query_names(t).contains(definition.name) && (
        t.fields.contains(field) ==> !fulltext_validation::field_query_names()(field).contains(
            definition.name,
        )),
{
    let taken = fulltext_validation::query_names(doc);
    law_valid_directive_defines_search(doc, taken, i);
    let name = fulltext::fulltext_definition(document::fulltext_directives(doc)[i])->0.name;
    let all = document::object_types(doc);
    let f = fulltext_validation::object_query_names();
    let g = fulltext_validation::field_query_names();
    let k = choose|k: int| 0 <= k < all.len() && all[k] == t;
    let own = fulltext_validation::entity_query_names(t);
    let rest = seqs::flat_map(t.fields, g);
    seqs::lemma_flat_map_contains(all, f, name);
    assert(!f(all[k]).contains(name));
    if own.contains(name) {
        let j = choose|j: int| 0 <= j < own.len() && own[j] == name;
        assert((own + rest)[j] == name);
    }
    if t.fields.contains(field) && g(field).contains(name) {
        let j = choose|j: int| 0 <= j < t.fields.len() && t.fields[j] == field;
        seqs::lemma_flat_map_contains(t.fields, g, name);
        assert(g(t.fields[j]).contains(name));
        let m = choose|m: int| 0 <= m < rest.len() && rest[m] == name;
        assert((own + rest)[own.len() + m] == name);
    }
}

/// What stands for a language in SQL, from its code.
pub proof fn law_languages_in_sql()
    ensures
        fulltext::language("simple"@) matches Some(l) && l.sql() == "'simple'"@,
        fulltext::language("da"@) matches Some(l) && l.sql() == "'danish'"@,
        fulltext::language("nl"@) matches Some(l) && l.sql() == "'dutch'"@,
        fulltext::language("en"@) matches Some(l) && l.sql() == "'english'"@,
        fulltext::language("fi"@) matches Some(l) && l.sql() == "'finnish'"@,
        fulltext::language("fr"@) matches Some(l) && l.sql() == "'french'"@,
        fulltext::language("de"@) matches Some(l) && l.sql() == "'german'"@,
        fulltext::language("hu"@) matches Some(l) && l.sql() == "'hungarian'"@,
        fulltext::language("it"@) matches Some(l) && l.sql() == "'italian'"@,
        fulltext::language("no"@) matches Some(l) && l.sql() == "'norwegian'"@,
        fulltext::language("pt"@) matches Some(l) && l.sql() == "'portugese'"@,
        fulltext::language("ro"@) matches Some(l) && l.sql() == "'romanian'"@,
        fulltext::language("ru"@) matches Some(l) && l.sql() == "'russian'"@,
        fulltext::language("es"@) matches Some(l) && l.sql() == "'spanish'"@,
        fulltext::language("sv"@) matches Some(l) && l.sql() == "'swedish'"@,
        fulltext::language("tr"@) matches Some(l) && l.sql() == "'turkish'"@,
{
    law_language_has_a_code(FulltextLanguage::Simple);
    law_language_has_a_code(FulltextLanguage::Danish);
    law_language_has_a_code(FulltextLanguage::Dutch);
    law_language_has_a_code(FulltextLanguage::English);
    law_language_has_a_code(FulltextLanguage::Finnish);
    law_language_has_a_code(FulltextLanguage::French);
    law_language_has_a_code(FulltextLanguage::German);
    law_language_has_a_code(FulltextLanguage::Hungarian);
    law_language_has_a_code(FulltextLanguage::Italian);
    law_language_has_a_code(FulltextLanguage::Norwegian);
    law_language_has_a_code(FulltextLanguage::Portugese);
    law_language_has_a_code(FulltextLanguage::Romanian);
    law_language_has_a_code(FulltextLanguage::Russian);
    law_language_has_a_code(FulltextLanguage::Spanish);
    law_language_has_a_code(FulltextLanguage::Swedish);
    law_language_has_a_code(FulltextLanguage::Turkish);
}

/// Whether a text is the code of a language.
pub open spec fn is_code(code: Seq<char>) -> bool {
    ||| code == "simple"@
    ||| code == "da"@
    ||| code == "nl"@
    ||| code == "en"@
    ||| code == "fi"@
    ||| code == "fr"@
    ||| code == "de"@
    ||| code == "hu"@
    ||| code == "it"@
    ||| code == "no"@
    ||| code == "pt"@
    ||| code == "ro"@
    ||| code == "ru"@
    ||| code == "es"@
    ||| code == "sv"@
    ||| code == "tr"@
}

/// No other text is the code of a language.
pub proof fn law_codes(code: Seq<char>)
    ensures
        fulltext::language(code) is Some <==> is_code(code),
{
}

/// The name of an algorithm.
pub open spec fn algorithm_name(a: FulltextAlgorithm) -> Seq<char> {
    match a {
        FulltextAlgorithm::Rank => "rank"@,
        FulltextAlgorithm::ProximityRank => "proximityRank"@,
    }
}

/// The two algorithms have these names, and no other name is one of an algorithm.
pub proof fn law_algorithm_names(name: Seq<char>)
    ensures
        fulltext::algorithm("rank"@) == Some(FulltextAlgorithm::Rank),
        fulltext::algorithm("proximityRank"@) == Some(FulltextAlgorithm::ProximityRank),
        fulltext::algorithm(name) is Some <==> (name == "rank"@ || name == "proximityRank"@),
        forall|a: FulltextAlgorithm|
            #![trigger algorithm_name(a)]
            fulltext::algorithm(name) == Some(a) <==> name == algorithm_name(a),
{
    reveal_strlit("rank");
    reveal_strlit("proximityRank");
    assert("rank"@.len() != "proximityRank"@.len());
}

/// Whether a value is an object that has a value under a key.
pub open spec fn gives(v: ValueView, key: Seq<char>, value: ValueView) -> bool {
    v matches ValueView::Object(entries) && document::entry(entries, key) == Some(value)
}

/// Whether the fields that a directive lists are those: the first object of its
/// `include` argument has the list.
pub open spec fn lists_fields(d: DirectiveView, fields: Seq<ValueView>) -> bool {
    d.argument("include"@) matches Some(ValueView::List(objects)) && objects.len() > 0 && gives(
        objects[0],
        "fields"@,
        ValueView::List(fields),
    )
}

/// Whether a value is an object that gives a name.
pub open spec fn is_named(v: ValueView) -> bool {
    exists|name: Seq<char>| #[trigger] gives(v, "name"@, ValueView::String(name))
}

/// Whether each of the fields has a name, and these are the names.
pub open spec fn have_names(fields: Seq<ValueView>, names: Set<Seq<char>>) -> bool {
    &&& forall|k: int|
        0 <= k < fields.len() ==> is_named(#[trigger] fields[k])
    &&& forall|name: Seq<char>| #[trigger]
        names.contains(name) <==> exists|k: int|
            0 <= k < fields.len() && gives(#[trigger] fields[k], "name"@, ValueView::String(name))
}

proof fn lemma_field_name(v: ValueView, name: Seq<char>)
    ensures
        fulltext::field_name()(v) == Some(name) <==> gives(v, "name"@, ValueView::String(name)),
{
}

proof fn lemma_named_fields(fields: Seq<ValueView>, names: Set<Seq<char>>)
    ensures
        have_names(fields, names) <==> {
            let all = seqs::collect(fields, fulltext::field_name());
            all.len() == fields.len() && all.to_set() == names
        },
{
    let f = fulltext::field_name();
    let all = seqs::collect(fields, f);
    fulltext::lemma_all_named(fields);
    assert forall|name: Seq<char>| all.contains(name) <==> exists|k: int|
        0 <= k < fields.len() && gives(#[trigger] fields[k], "name"@, ValueView::String(name)) by {
        seqs::lemma_collect_contains(fields, f, name);
        if all.contains(name) {
            let k = choose|k: int| 0 <= k < fields.len() && #[trigger] f(fields[k]) == Some(name);
            lemma_field_name(fields[k], name);
        }
        if exists|k: int|
            0 <= k < fields.len() && gives(#[trigger] fields[k], "name"@, ValueView::String(name)) {
            let k = choose|k: int|
                0 <= k < fields.len() && gives(
                    #[trigger] fields[k],
                    "name"@,
                    ValueView::String(name),
                );
            lemma_field_name(fields[k], name);
            assert(f(fields[k]) == Some(name));
        }
    }
    assert forall|k: int| 0 <= k < fields.len() implies is_named(#[trigger] fields[k]) == (f(
        fields[k],
    ) is Some) by {
        if f(fields[k]) is Some {
            lemma_field_name(fields[k], f(fields[k])->0);
            assert(gives(fields[k], "name"@, ValueView::String(f(fields[k])->0)));
        }
    }
    if have_names(fields, names) {
        assert(all.to_set() =~= names);
        assert forall|k: int| 0 <= k < fields.len() implies (#[trigger] f(fields[k])) is Some by {
            assert(is_named(fields[k]));
        }
    }
    if all.len() == fields.len() && all.to_set() == names {
        assert forall|k: int| 0 <= k < fields.len() implies is_named(#[trigger] fields[k]) by {
            assert(f(fields[k]) is Some);
        }
        assert forall|name: Seq<char>| #[trigger] names.contains(name) <==> exists|k: int|
            0 <= k < fields.len() && gives(
                #[trigger] fields[k],
                "name"@,
                ValueView::String(name),
            ) by {
            assert(names.contains(name) == all.contains(name));
        }
    }
}

/// A search is what a directive defines exactly where it has the name that the
/// directive gives, the algorithm and the language whose names the directive
/// gives, and the names of the fields that the directive lists.
pub proof fn law_definition(d: DirectiveView, definition: FulltextDefinitionView)
    ensures
        fulltext::fulltext_definition(d) == Some(definition) <==> {
            &&& d.argument("name"@) == Some(ValueView::String(definition.name))
            &&& d.argument("algorithm"@) == Some(
                ValueView::Enum(algorithm_name(definition.config.algorithm)),
            )
            &&& d.argument("language"@) == Some(ValueView::Enum(code(definition.config.language)))
            &&& exists|fields: Seq<ValueView>| #[trigger]
                lists_fields(d, fields) && have_names(fields, definition.included_fields)
        },
{
    law_language_has_a_code(definition.config.language);
    let a = d.argument("algorithm"@)->0->Enum_0;
    law_algorithm_names(a);
    assert(fulltext::algorithm(a) == Some(definition.config.algorithm) <==> a == algorithm_name(
        definition.config.algorithm,
    ));
    let l = d.argument("language"@)->0->Enum_0;
    if fulltext::language(l) == Some(definition.config.language) {
        law_language_has_one_code(l, code(definition.config.language));
    }
    if let Some(fields) = fulltext::first_fields(d) {
        lemma_named_fields(fields, definition.included_fields);
        assert(lists_fields(d, fields));
    }
    if exists|fields: Seq<ValueView>| #[trigger]
        lists_fields(d, fields) && have_names(fields, definition.included_fields) {
        let fields = choose|fields: Seq<ValueView>| #[trigger]
            lists_fields(d, fields) && have_names(fields, definition.included_fields);
        assert(fulltext::first_fields(d) == Some(fields));
    }
}

/// A search is read and ranked as the arguments of its directive say.
pub proof fn law_configuration(d: DirectiveView, definition: FulltextDefinitionView)
    requires
        fulltext::fulltext_definition(d) == Some(definition),
    ensures
        d.argument("algorithm"@) matches Some(ValueView::Enum(a)) && fulltext::algorithm(a) == Some(
            definition.config.algorithm,
        ),
        d.argument("language"@) matches Some(ValueView::Enum(l)) && fulltext::language(l) == Some(
            definition.config.language,
        ),
{
}

/// A directive covers an entity type exactly where one of the objects of its
/// `include` argument names it.
pub proof fn law_covers(d: DirectiveView, entity: Seq<char>)
    ensures
        fulltext::covers(d, entity) <==> (d.argument("include"@) matches Some(
            ValueView::List(objects),
        ) && exists|i: int|
            0 <= i < objects.len() && gives(
                #[trigger] objects[i],
                "entity"@,
                ValueView::String(entity),
            )),
{
    if let Some(ValueView::List(objects)) = d.argument("include"@) {
        let p = fulltext::names_entity(entity);
        assert forall|i: int| 0 <= i < objects.len() implies p(#[trigger] objects[i]) == gives(
            objects[i],
            "entity"@,
            ValueView::String(entity),
        ) by {}
        if exists|i: int|
            0 <= i < objects.len() && gives(
                #[trigger] objects[i],
                "entity"@,
                ValueView::String(entity),
            ) {
            let i = choose|i: int|
                0 <= i < objects.len() && gives(
                    #[trigger] objects[i],
                    "entity"@,
                    ValueView::String(entity),
                );
            assert(p(objects[i]));
        }
        if seqs::some(objects, p) {
            let i = choose|i: int| 0 <= i < objects.len() && #[trigger] p(objects[i]);
            assert(gives(objects[i], "entity"@, ValueView::String(entity)));
        }
    }
}

/// The searches over an entity type are those that the directives which cover it
/// define, in the order of the directives.
pub proof fn law_searches_of_entity(doc: Seq<DefinitionView>, entity: Seq<char>)
    requires
        forall|i: int|
            0 <= i < document::fulltext_directives(doc).len() && fulltext::covers(
                #[trigger] document::fulltext_directives(doc)[i],
                entity,
            ) ==> fulltext::fulltext_definition(document::fulltext_directives(doc)[i]) is Some,
    ensures
        fulltext::defines_searches(doc, entity),
        seqs::collect(document::fulltext_directives(doc), fulltext::definition_for(entity))
            == document::fulltext_directives(doc).filter(
            |d: DirectiveView| fulltext::covers(d, entity),
        ).map_values(|d: DirectiveView| fulltext::fulltext_definition(d)->0),
{
    let ds = document::fulltext_directives(doc);
    seqs::lemma_collect_filter(
        ds,
        fulltext::definition_for(entity),
        |d: DirectiveView| fulltext::covers(d, entity),
        |d: DirectiveView| fulltext::fulltext_definition(d)->0,
    );
}

} // verus!
