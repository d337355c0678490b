//! Fulltext search: its languages, its algorithms, and the definitions that
//! `@fulltext` directives give.
use vstd::prelude::*;
use vstd::string::*;
use crate::ast::{DefinitionView, Directive, DirectiveView, Document, Value, ValueView};
use crate::document;
use crate::document::{NonDeterministicFulltext, SCHEMA_TYPE_NAME, find_entry, select_fulltext};
use crate::fulltext_laws;
use crate::names::NameSet;
use crate::schema::Schema;
use crate::seqs;
use crate::text::same;

verus! {

broadcast use crate::seqs::lemma_deep_push;

/// The language in which a fulltext search finds the words of a text.
#[derive(Debug, Clone, Copy, PartialEq, Eq, Structural)]
pub enum FulltextLanguage {
    Simple,
    Danish,
    Dutch,
    English,
    Finnish,
    French,
    German,
    Hungarian,
    Italian,
    Norwegian,
    Portugese,
    Romanian,
    Russian,
    Spanish,
    Swedish,
    Turkish,
}

/// The language that a code stands for.
pub open spec fn language(code: Seq<char>) -> Option<FulltextLanguage> {
    if code == "simple"@ {
        Some(FulltextLanguage::Simple)
    } else if code == "da"@ {
        Some(FulltextLanguage::Danish)
    } else if code == "nl"@ {
        Some(FulltextLanguage::Dutch)
    } else if code == "en"@ {
        Some(FulltextLanguage::English)
    } else if code == "fi"@ {
        Some(FulltextLanguage::Finnish)
    } else if code == "fr"@ {
        Some(FulltextLanguage::French)
    } else if code == "de"@ {
        Some(FulltextLanguage::German)
    } else if code == "hu"@ {
        Some(FulltextLanguage::Hungarian)
    } else if code == "it"@ {
        Some(FulltextLanguage::Italian)
    } else if code == "no"@ {
        Some(FulltextLanguage::Norwegian)
    } else if code == "pt"@ {
        Some(FulltextLanguage::Portugese)
    } else if code == "ro"@ {
        Some(FulltextLanguage::Romanian)
    } else if code == "ru"@ {
        Some(FulltextLanguage::Russian)
    } else if code == "es"@ {
        Some(FulltextLanguage::Spanish)
    } else if code == "sv"@ {
        Some(FulltextLanguage::Swedish)
    } else if code == "tr"@ {
        Some(FulltextLanguage::Turkish)
    } else {
        None
    }
}

impl TryFrom<&str> for FulltextLanguage {
    type Error = String;

    /// The language that a code stands for.
    fn try_from(code: &str) -> (r: Result<FulltextLanguage, String>)
        ensures
            match language(code@) {
                Some(l) => r == Ok::<FulltextLanguage, String>(l),
                None => r matches Err(e) && e@
                    == "Provided language for fulltext search is invalid: "@ + code@,
            },
    {
        if same(code, "simple") {
            Ok(FulltextLanguage::Simple)
        } else if same(code, "da") {
            Ok(FulltextLanguage::Danish)
        } else if same(code, "nl") {
            Ok(FulltextLanguage::Dutch)
        } else if same(code, "en") {
            Ok(FulltextLanguage::English)
        } else if same(code, "fi") {
            Ok(FulltextLanguage::Finnish)
        } else if same(code, "fr") {
            Ok(FulltextLanguage::French)
        } else if same(code, "de") {
            Ok(FulltextLanguage::German)
        } else if same(code, "hu") {
            Ok(FulltextLanguage::Hungarian)
        } else if same(code, "it") {
            Ok(FulltextLanguage::Italian)
        } else if same(code, "no") {
            Ok(FulltextLanguage::Norwegian)
        } else if same(code, "pt") {
            Ok(FulltextLanguage::Portugese)
        } else if same(code, "ro") {
            Ok(FulltextLanguage::Romanian)
        } else if same(code, "ru") {
            Ok(FulltextLanguage::Russian)
        } else if same(code, "es") {
            Ok(FulltextLanguage::Spanish)
        } else if same(code, "sv") {
            Ok(FulltextLanguage::Swedish)
        } else if same(code, "tr") {
            Ok(FulltextLanguage::Turkish)
        } else {
            let mut e = "Provided language for fulltext search is invalid: ".to_owned();
            e.append(code);
            Err(e)
        }
    }
}

impl vstd::std_specs::convert::TryFromSpecImpl<&str> for FulltextLanguage {
    open spec fn obeys_try_from_spec() -> bool {
        false
    }

    open spec fn try_from_spec(code: &str) -> Result<FulltextLanguage, String> {
        arbitrary()
    }
}

impl FulltextLanguage {
    /// The language as a string literal of SQL.
    pub open spec fn sql(self) -> Seq<char> {
        match self {
            FulltextLanguage::Simple => "'simple'"@,
            FulltextLanguage::Danish => "'danish'"@,
            FulltextLanguage::Dutch => "'dutch'"@,
            FulltextLanguage::English => "'english'"@,
            FulltextLanguage::Finnish => "'finnish'"@,
            FulltextLanguage::French => "'french'"@,
            FulltextLanguage::German => "'german'"@,
            FulltextLanguage::Hungarian => "'hungarian'"@,
            FulltextLanguage::Italian => "'italian'"@,
            FulltextLanguage::Norwegian => "'norwegian'"@,
            FulltextLanguage::Portugese => "'portugese'"@,
            FulltextLanguage::Romanian => "'romanian'"@,
            FulltextLanguage::Russian => "'russian'"@,
            FulltextLanguage::Spanish => "'spanish'"@,
            FulltextLanguage::Swedish => "'swedish'"@,
            FulltextLanguage::Turkish => "'turkish'"@,
        }
    }

    /// The language as a string literal of SQL, which may stand in a query as it
    /// is.
    pub fn as_sql(&self) -> (r: &'static str)
        ensures
            r@ == self.sql(),
            fulltext_laws::is_plain_sql_literal(r@),
    {
        proof {
            fulltext_laws::law_languages_are_plain_in_sql(*self);
        }
        match self {
            FulltextLanguage::Simple => "'simple'",
            FulltextLanguage::Danish => "'danish'",
            FulltextLanguage::Dutch => "'dutch'",
            FulltextLanguage::English => "'english'",
            FulltextLanguage::Finnish => "'finnish'",
            FulltextLanguage::French => "'french'",
            FulltextLanguage::German => "'german'",
            FulltextLanguage::Hungarian => "'hungarian'",
            FulltextLanguage::Italian => "'italian'",
            FulltextLanguage::Norwegian => "'norwegian'",
            FulltextLanguage::Portugese => "'portugese'",
            FulltextLanguage::Romanian => "'romanian'",
            FulltextLanguage::Russian => "'russian'",
            FulltextLanguage::Spanish => "'spanish'",
            FulltextLanguage::Swedish => "'swedish'",
            FulltextLanguage::Turkish => "'turkish'",
        }
    }
}

/// How a fulltext search ranks what it finds.
#[derive(Debug, Clone, Copy, PartialEq, Eq, Structural)]
pub enum FulltextAlgorithm {
    Rank,
    ProximityRank,
}

/// The algorithm with that name.
pub open spec fn algorithm(name: Seq<char>) -> Option<FulltextAlgorithm> {
    if name == "rank"@ {
        Some(FulltextAlgorithm::Rank)
    } else if name == "proximityRank"@ {
        Some(FulltextAlgorithm::ProximityRank)
    } else {
        None
    }
}

impl TryFrom<&str> for FulltextAlgorithm {
    type Error = String;

    /// The algorithm with that name.
    fn try_from(name: &str) -> (r: Result<FulltextAlgorithm, String>)
        ensures
            match algorithm(name@) {
                Some(a) => r == Ok::<FulltextAlgorithm, String>(a),
                None => r matches Err(e) && e@ == "The provided fulltext search algorithm "@ + name@
                    + " is invalid. It must be one of: rank, proximityRank"@,
            },
    {
        if same(name, "rank") {
            Ok(FulltextAlgorithm::Rank)
        } else if same(name, "proximityRank") {
            Ok(FulltextAlgorithm::ProximityRank)
        } else {
            let mut e = "The provided fulltext search algorithm ".to_owned();
            e.append(name);
            e.append(" is invalid. It must be one of: rank, proximityRank");
            Err(e)
        }
    }
}

impl vstd::std_specs::convert::TryFromSpecImpl<&str> for FulltextAlgorithm {
    open spec fn obeys_try_from_spec() -> bool {
        false
    }

    open spec fn try_from_spec(name: &str) -> Result<FulltextAlgorithm, String> {
        arbitrary()
    }
}

/// How a fulltext search reads texts and ranks what it finds.
#[derive(Debug, Clone, Copy, PartialEq, Eq, Structural)]
pub struct FulltextConfig {
    pub language: FulltextLanguage,
    pub algorithm: FulltextAlgorithm,
}

/// A fulltext search over fields of an entity type.
#[derive(Debug)]
pub struct FulltextDefinition {
    pub config: FulltextConfig,
    pub included_fields: NameSet,
    pub name: String,
}

/// What a `FulltextDefinition` stands for.
#[verifier::ext_equal]
pub struct FulltextDefinitionView {
    pub config: FulltextConfig,
    pub included_fields: Set<Seq<char>>,
    pub name: Seq<char>,
}

impl View for FulltextDefinition {
    type V = FulltextDefinitionView;

    open spec fn view(&self) -> FulltextDefinitionView {
        FulltextDefinitionView {
            config: self.config,
            included_fields: self.included_fields@,
            name: self.name@,
        }
    }
}

/// The entry of an object value.
pub open spec fn value_entry(v: ValueView, name: Seq<char>) -> Option<ValueView> {
    match v {
        ValueView::Object(entries) => document::entry(entries, name),
        _ => None,
    }
}

/// The name that an object value gives to a field.
pub open spec fn field_name() -> spec_fn(ValueView) -> Option<Seq<char>> {
    |v: ValueView|
        match value_entry(v, "name"@) {
            Some(ValueView::String(name)) => Some(name),
            _ => None,
        }
}

/// The list of fields that the first object of an `include` argument gives.
pub open spec fn first_fields(d: DirectiveView) -> Option<Seq<ValueView>> {
    match d.argument("include"@) {
        Some(ValueView::List(objects)) => if objects.len() == 0 {
            None
        } else {
            match value_entry(objects[0], "fields"@) {
                Some(ValueView::List(fields)) => Some(fields),
                _ => None,
            }
        },
        _ => None,
    }
}

/// The definition that a `@fulltext` directive gives, where each of its
/// arguments is as it has to be.
pub open spec fn fulltext_definition(d: DirectiveView) -> Option<FulltextDefinitionView> {
    match (
        d.argument("name"@),
        d.argument("algorithm"@),
        d.argument("language"@),
        first_fields(d),
    ) {
        (
            Some(ValueView::String(name)),
            Some(ValueView::Enum(a)),
            Some(ValueView::Enum(l)),
            Some(fields),
        ) => match (algorithm(a), language(l)) {
            (Some(algorithm), Some(language)) => if seqs::collect(fields, field_name()).len()
                == fields.len() {
                Some(
                    FulltextDefinitionView {
                        config: FulltextConfig { language, algorithm },
                        included_fields: seqs::collect(fields, field_name()).to_set(),
                        name,
                    },
                )
            } else {
                None
            },
            _ => None,
        },
        _ => None,
    }
}

/// The entry of an object value.
pub fn find_value_entry<'a>(v: &'a Value, name: &str) -> (r: Option<&'a Value>)
    ensures
        seqs::opt(r) == value_entry(v@, name@),
{
    match v.as_object() {
        Some(entries) => find_entry(entries, name),
        None => None,
    }
}

/// The names that object values give to fields.
fn field_names(fields: &Vec<Value>) -> (r: NameSet)
    requires
        seqs::collect(seqs::deep(fields@), field_name()).len() == fields@.len(),
    ensures
        r@ == seqs::collect(seqs::deep(fields@), field_name()).to_set(),
{
    let ghost all = seqs::deep(fields@);
    let ghost f = field_name();
    let mut r = NameSet::new();
    let mut i: usize = 0;
    assert(seqs::collect(all.take(0), f).to_set() =~= Set::<Seq<char>>::empty());
    proof {
        lemma_all_named(all);
    }
    while i < fields.len()
        invariant
            i <= fields@.len(),
            all == seqs::deep(fields@),
            f == field_name(),
            forall|j: int| 0 <= j < all.len() ==> (#[trigger] f(all[j])) is Some,
            r@ == seqs::collect(all.take(i as int), f).to_set(),
        decreases fields@.len() - i,
    {
        let ghost before = seqs::collect(all.take(i as int), f);
        assert(f(all[i as int]) is Some);
        proof {
            seqs::lemma_collect_step(all, f, i as int);
            lemma_push_to_set(before, f(all[i as int])->0);
        }
        if let Some(Value::String(name)) = find_value_entry(&fields[i], "name") {
            r = r.with(name.clone());
        }
        i += 1;
    }
    proof {
        seqs::lemma_take_all(all);
    }
    r
}

/// One item more in a sequence is one more in its set.
proof fn lemma_push_to_set(s: Seq<Seq<char>>, x: Seq<char>)
    ensures
        s.push(x).to_set() == s.to_set().insert(x),
{
    assert forall|n: Seq<char>| #[trigger]
        s.push(x).to_set().contains(n) == s.to_set().insert(x).contains(n) by {
        if s.contains(n) {
            let i = choose|i: int| 0 <= i < s.len() && s[i] == n;
            assert(s.push(x)[i] == n);
        }
        assert(s.push(x)[s.len() as int] == x);
    }
    assert(s.push(x).to_set() =~= s.to_set().insert(x));
}

/// Where as many names come out as there are values, each value has a name.
pub proof fn lemma_all_named(s: Seq<ValueView>)
    ensures
        seqs::collect(s, field_name()).len() <= s.len(),
        seqs::collect(s, field_name()).len() == s.len() <==> forall|i: int|
            0 <= i < s.len() ==> (#[trigger] field_name()(s[i])) is Some,
    decreases s.len(),
{
    if s.len() > 0 {
        let front = s.drop_last();
        lemma_all_named(front);
        assert forall|i: int| 0 <= i < front.len() implies front[i] == s[i] by {}
        if forall|i: int| 0 <= i < front.len() ==> (#[trigger] field_name()(front[i])) is Some {
            assert forall|i: int| 0 <= i < s.len() && field_name()(s.last()) is Some implies (
            #[trigger] field_name()(s[i])) is Some by {
                if i < front.len() {
                    assert(field_name()(front[i]) is Some);
                }
            }
        }
        if forall|i: int| 0 <= i < s.len() ==> (#[trigger] field_name()(s[i])) is Some {
            assert forall|i: int| 0 <= i < front.len() implies (#[trigger] field_name()(
                front[i],
            )) is Some by {
                assert(field_name()(s[i]) is Some);
            }
            assert(field_name()(s[s.len() - 1]) is Some);
        }
    }
}

/// Whether each of the values gives a name to a field.
fn all_named(fields: &Vec<Value>) -> (r: bool)
    ensures
        r == (seqs::collect(seqs::deep(fields@), field_name()).len() == fields@.len()),
{
    let ghost all = seqs::deep(fields@);
    let ghost f = field_name();
    let mut i: usize = 0;
    proof {
        lemma_all_named(all);
    }
    while i < fields.len()
        invariant
            i <= fields@.len(),
            all == seqs::deep(fields@),
            f == field_name(),
            (seqs::collect(all, f).len() == all.len()) == (forall|j: int|
                0 <= j < all.len() ==> (#[trigger] f(all[j])) is Some),
            forall|j: int| 0 <= j < i ==> (#[trigger] f(all[j])) is Some,
        decreases fields@.len() - i,
    {
        match find_value_entry(&fields[i], "name") {
            Some(Value::String(_)) => {
                assert(f(all[i as int]) is Some);
            },
            _ => {
                assert(f(all[i as int]) is None);
                return false;
            },
        }
        i += 1;
    }
    true
}

/// Whether a `@fulltext` directive defines a search: each of its arguments is as
/// it has to be.
pub fn defines_search(d: &Directive) -> (r: bool)
    ensures
        r == (fulltext_definition(d@) is Some),
{
    match d.argument("name") {
        Some(Value::String(_)) => {},
        _ => {
            return false;
        },
    }
    match d.argument("algorithm") {
        Some(Value::Enum(name)) if FulltextAlgorithm::try_from(name.as_str()).is_ok() => {},
        _ => {
            return false;
        },
    }
    match d.argument("language") {
        Some(Value::Enum(code)) if FulltextLanguage::try_from(code.as_str()).is_ok() => {},
        _ => {
            return false;
        },
    }
    let objects = match d.argument("include") {
        Some(v) => v.as_list(),
        None => None,
    };
    let fields = match objects {
        Some(objects) if objects.len() > 0 => {
            assert(seqs::deep(objects@)[0] == objects@[0]@);
            match find_value_entry(&objects[0], "fields") {
                Some(v) => v.as_list(),
                None => None,
            }
        },
        _ => None,
    };
    match fields {
        Some(fields) => all_named(fields),
        None => false,
    }
}

impl FulltextDefinition {
    /// The definition that a `@fulltext` directive gives. The directive must have
    /// been validated.
    pub fn from(directive: &Directive) -> (r: FulltextDefinition)
        requires
            fulltext_definition(directive@) is Some,
        ensures
            fulltext_definition(directive@) == Some(r@),
    {
        let name = directive.argument("name").unwrap().as_str().unwrap();
        let algorithm_name = directive.argument("algorithm").unwrap().as_enum().unwrap();
        let code = directive.argument("language").unwrap().as_enum().unwrap();
        let objects = directive.argument("include").unwrap().as_list().unwrap();
        // A fulltext search covers one entity type, so the first object is the
        // only one.
        assert(seqs::deep(objects@)[0] == objects@[0]@);
        let fields = find_value_entry(&objects[0], "fields").unwrap().as_list().unwrap();
        let algorithm = match FulltextAlgorithm::try_from(algorithm_name.as_str()) {
            Ok(a) => a,
            Err(_) => vstd::pervasive::unreached(),
        };
        let language = match FulltextLanguage::try_from(code.as_str()) {
            Ok(l) => l,
            Err(_) => vstd::pervasive::unreached(),
        };
        FulltextDefinition {
            config: FulltextConfig { language, algorithm },
            included_fields: field_names(fields),
            name: name.clone(),
        }
    }
}

/// Whether an object of an `include` argument names that entity type.
pub open spec fn names_entity(entity: Seq<char>) -> spec_fn(ValueView) -> bool {
    |v: ValueView| value_entry(v, "entity"@) == Some(ValueView::String(entity))
}

/// Whether a `@fulltext` directive covers that entity type.
pub open spec fn covers(d: DirectiveView, entity: Seq<char>) -> bool {
    match d.argument("include"@) {
        Some(ValueView::List(objects)) => seqs::some(objects, names_entity(entity)),
        _ => false,
    }
}

/// Decides `covers`.
pub fn covers_entity(d: &Directive, entity: &str) -> (r: bool)
    ensures
        r == covers(d@, entity@),
{
    let objects = match d.argument("include") {
        Some(v) => match v.as_list() {
            Some(objects) => objects,
            None => {
                return false;
            },
        },
        None => {
            return false;
        },
    };
    let ghost all = seqs::deep(objects@);
    let mut i: usize = 0;
    while i < objects.len()
        invariant
            i <= objects@.len(),
            all == seqs::deep(objects@),
            d@.argument("include"@) == Some(ValueView::List(all)),
            forall|j: int| 0 <= j < i ==> !#[trigger] names_entity(entity@)(all[j]),
        decreases objects@.len() - i,
    {
        if let Some(Value::String(s)) = find_value_entry(&objects[i], "entity") {
            if same(s.as_str(), entity) {
                assert(names_entity(entity@)(all[i as int]));
                return true;
            }
        }
        assert(!names_entity(entity@)(all[i as int]));
        i += 1;
    }
    false
}

/// The definition that a directive gives, if it covers that entity type.
pub open spec fn definition_for(entity: Seq<char>) -> spec_fn(DirectiveView) -> Option<
    FulltextDefinitionView,
> {
    |d: DirectiveView|
        if covers(d, entity) {
            fulltext_definition(d)
        } else {
            None
        }
}

/// Whether each `@fulltext` directive of a document that covers an entity type
/// defines a search.
pub open spec fn defines_searches(doc: Seq<DefinitionView>, entity: Seq<char>) -> bool {
    let directives = document::fulltext_directives(doc);
    forall|i: int|
        0 <= i < directives.len() && covers(#[trigger] directives[i], entity)
            ==> fulltext_definition(directives[i]) is Some
}

/// Decides `defines_searches`.
pub fn has_defined_searches(doc: &Document, entity: &str) -> (r: bool)
    ensures
        r == defines_searches(doc@, entity@),
{
    let directives: Vec<&Directive> = match doc.get_object_type_definition(SCHEMA_TYPE_NAME) {
        Some(t) => select_fulltext(&t.directives),
        None => Vec::new(),
    };
    let ghost all = seqs::deep(directives@);
    assert(all =~= document::fulltext_directives(doc@));
    let mut i: usize = 0;
    while i < directives.len()
        invariant
            i <= directives@.len(),
            all == seqs::deep(directives@),
            all == document::fulltext_directives(doc@),
            forall|j: int|
                0 <= j < i && covers(#[trigger] all[j], entity@) ==> fulltext_definition(all[j])
                    is Some,
        decreases directives@.len() - i,
    {
        assert(all[i as int] == directives@[i as int]@);
        if covers_entity(directives[i], entity) && !defines_search(directives[i]) {
            return false;
        }
        i += 1;
    }
    true
}

impl Schema {
    /// The fulltext searches over an entity type that a document defines. The
    /// directives that cover the type must have been validated.
    pub fn entity_fulltext_definitions(
        entity: &str,
        doc: &Document,
        allow_non_deterministic: bool,
    ) -> (r: Result<Vec<FulltextDefinition>, NonDeterministicFulltext>)
        requires
            allow_non_deterministic ==> defines_searches(doc@, entity@),
        ensures
            r is Ok <==> (allow_non_deterministic || document::fulltext_directives(doc@).len() == 0),
            r matches Ok(definitions) ==> seqs::deep(definitions@) == seqs::collect(
                document::fulltext_directives(doc@),
                definition_for(entity@),
            ),
    {
        let directives = match doc.get_fulltext_directives(allow_non_deterministic) {
            Ok(directives) => directives,
            Err(e) => {
                return Err(e);
            },
        };
        let ghost all = seqs::deep(directives@);
        let ghost f = definition_for(entity@);
        let mut r: Vec<FulltextDefinition> = Vec::new();
        let mut i: usize = 0;
        while i < directives.len()
            invariant
                i <= directives@.len(),
                all == seqs::deep(directives@),
                f == definition_for(entity@),
                forall|j: int|
                    0 <= j < all.len() && covers(#[trigger] all[j], entity@) ==> fulltext_definition(
                        all[j],
                    ) is Some,
                seqs::deep(r@) == seqs::collect(all.take(i as int), f),
            decreases directives@.len() - i,
        {
            proof {
                seqs::lemma_collect_step(all, f, i as int);
            }
            assert(all[i as int] == directives@[i as int]@);
            if covers_entity(directives[i], entity) {
                r.push(FulltextDefinition::from(directives[i]));
            }
            i += 1;
        }
        proof {
            seqs::lemma_take_all(all);
        }
        Ok(r)
    }
}

} // verus!
