//! The abstract syntax of a GraphQL schema document, as plain values.
use vstd::prelude::*;
use crate::seqs;
use crate::text;
use crate::text::{comes_before, same};

verus! {

broadcast use crate::seqs::lemma_deep_push;

/// Where something stands in a text: the line and the column, both counted from
/// one. What stands in no text is at zero.
#[derive(Debug, Clone, Copy, PartialEq, Eq, Structural)]
pub struct Pos {
    pub line: usize,
    pub column: usize,
}

impl Pos {
    /// The place of what stands in no text.
    pub open spec fn nowhere() -> Pos {
        Pos { line: 0, column: 0 }
    }
}

impl Default for Pos {
    fn default() -> (r: Pos)
        ensures
            r == Pos::nowhere(),
    {
        Pos { line: 0, column: 0 }
    }
}

/// A type as it is written behind a field: a name, a list of a type, or a type
/// that admits no `null`.
#[derive(Debug, PartialEq, Eq)]
pub enum Type {
    NamedType(String),
    ListType(Box<Type>),
    NonNullType(Box<Type>),
}

/// What a `Type` stands for.
pub enum TypeView {
    NamedType(Seq<char>),
    ListType(Box<TypeView>),
    NonNullType(Box<TypeView>),
}

impl View for Type {
    type V = TypeView;

    open spec fn view(&self) -> TypeView
        decreases self,
    {
        match self {
            Type::NamedType(name) => TypeView::NamedType(name@),
            Type::ListType(inner) => TypeView::ListType(Box::new((**inner).view())),
            Type::NonNullType(inner) => TypeView::NonNullType(Box::new((**inner).view())),
        }
    }
}

impl TypeView {
    /// The name inside all lists and non-null marks.
    pub open spec fn base(self) -> Seq<char>
        decreases self,
    {
        match self {
            TypeView::NamedType(name) => name,
            TypeView::ListType(inner) => inner.base(),
            TypeView::NonNullType(inner) => inner.base(),
        }
    }
}

impl Clone for Type {
    fn clone(&self) -> (r: Type)
        ensures
            r@ == self@,
        decreases self,
    {
        match self {
            Type::NamedType(name) => Type::NamedType(name.clone()),
            Type::ListType(inner) => Type::ListType(Box::new((&**inner).clone())),
            Type::NonNullType(inner) => Type::NonNullType(Box::new((&**inner).clone())),
        }
    }
}

impl Type {
    /// The name of the type inside all lists and non-null marks.
    pub fn get_base_type(&self) -> (r: &str)
        ensures
            r@ == self@.base(),
        decreases self,
    {
        match self {
            Type::NamedType(name) => name.as_str(),
            Type::ListType(inner) => inner.get_base_type(),
            Type::NonNullType(inner) => inner.get_base_type(),
        }
    }

    /// Whether two types are written alike.
    pub fn same_type(&self, other: &Type) -> (r: bool)
        ensures
            r == (self@ == other@),
        decreases self,
    {
        match (self, other) {
            (Type::NamedType(a), Type::NamedType(b)) => same(a.as_str(), b.as_str()),
            (Type::ListType(a), Type::ListType(b)) => a.same_type(b),
            (Type::NonNullType(a), Type::NonNullType(b)) => a.same_type(b),
            _ => false,
        }
    }
}

/// A floating point number, held by the bits of its IEEE 754 double.
#[derive(Debug, Clone, Copy)]
pub struct Float {
    pub bits: u64,
}

impl Float {
    /// The bits without the one of the sign.
    pub open spec fn magnitude(self) -> u64 {
        self.bits % 0x8000_0000_0000_0000
    }

    /// Whether two numbers are equal: they have the same bits or are both zero,
    /// and none is a NaN.
    pub open spec fn equals(self, other: Float) -> bool {
        &&& self.magnitude() <= 0x7ff0_0000_0000_0000
        &&& self.bits == other.bits || (self.magnitude() == 0 && other.magnitude() == 0)
    }
}

impl PartialEq for Float {
    fn eq(&self, other: &Float) -> (r: bool) {
        let a: u64 = self.bits % 0x8000_0000_0000_0000;
        let b: u64 = other.bits % 0x8000_0000_0000_0000;
        a <= 0x7ff0_0000_0000_0000 && (self.bits == other.bits || (a == 0 && b == 0))
    }
}

impl vstd::std_specs::cmp::PartialEqSpecImpl for Float {
    open spec fn obeys_eq_spec() -> bool {
        true
    }

    open spec fn eq_spec(&self, other: &Float) -> bool {
        self.equals(*other)
    }
}

/// A value that is written in a document.
#[derive(Debug, PartialEq)]
pub enum Value {
    Variable(String),
    Int(i64),
    Float(Float),
    String(String),
    Boolean(bool),
    Null,
    Enum(String),
    List(Vec<Value>),
    Object(Entries),
}

/// The entries of an object value, in the order of their keys. No key occurs
/// twice.
#[derive(Debug, PartialEq)]
pub struct Entries {
    entries: Vec<(String, Value)>,
}

/// What a `Value` stands for; a floating point number stands for its bits.
pub enum ValueView {
    Variable(Seq<char>),
    Int(i64),
    Float(u64),
    String(Seq<char>),
    Boolean(bool),
    Null,
    Enum(Seq<char>),
    List(Seq<ValueView>),
    Object(Seq<(Seq<char>, ValueView)>),
}

impl Value {
    /// What the value stands for.
    pub open spec fn model(&self) -> ValueView
        decreases self,
    {
        match self {
            Value::Variable(name) => ValueView::Variable(name@),
            Value::Int(n) => ValueView::Int(*n),
            Value::Float(x) => ValueView::Float(x.bits),
            Value::String(s) => ValueView::String(s@),
            Value::Boolean(b) => ValueView::Boolean(*b),
            Value::Null => ValueView::Null,
            Value::Enum(name) => ValueView::Enum(name@),
            Value::List(items) => ValueView::List(
                Seq::new(
                    items@.len(),
                    |i: int|
                        if 0 <= i < items@.len() {
                            items@[i].model()
                        } else {
                            ValueView::Null
                        },
                ),
            ),
            Value::Object(entries) => ValueView::Object(entries.model()),
        }
    }
}

impl Entries {
    /// What the entries stand for.
    pub closed spec fn model(&self) -> Seq<(Seq<char>, ValueView)>
        decreases self,
    {
        Seq::new(
            self.entries@.len(),
            |i: int|
                if 0 <= i < self.entries@.len() {
                    (self.entries@[i].0@, self.entries@[i].1.model())
                } else {
                    (Seq::empty(), ValueView::Null)
                },
        )
    }

    /// The keys stand in their order, and none occurs twice.
    #[verifier::type_invariant]
    spec fn ordered(self) -> bool {
        forall|i: int, j: int|
            0 <= i < j < self.entries@.len() ==> text::precedes(
                #[trigger] self.entries@[i].0@,
                #[trigger] self.entries@[j].0@,
            )
    }
}

/// Whether the keys of entries stand in their order, so that none occurs twice.
pub open spec fn keys_ascend(entries: Seq<(Seq<char>, ValueView)>) -> bool {
    forall|i: int, j: int|
        0 <= i < j < entries.len() ==> text::precedes(
            #[trigger] entries[i].0,
            #[trigger] entries[j].0,
        )
}

impl View for Entries {
    type V = Seq<(Seq<char>, ValueView)>;

    open spec fn view(&self) -> Seq<(Seq<char>, ValueView)> {
        self.model()
    }
}

impl View for Value {
    type V = ValueView;

    open spec fn view(&self) -> ValueView {
        self.model()
    }
}

/// The view of a list is that of its items.
pub proof fn lemma_list_view(v: Value)
    ensures
        v matches Value::List(items) ==> v@ == ValueView::List(seqs::deep(items@)),
{
    if let Value::List(items) = v {
        assert(v@->List_0 =~= seqs::deep(items@));
    }
}

/// What the order of the entries says of their view.
proof fn lemma_ordered(e: Entries)
    requires
        e.ordered(),
    ensures
        seqs::deep(e.entries@) == e@,
        keys_ascend(e@),
{
    assert(seqs::deep(e.entries@) =~= e@);
    assert forall|i: int, j: int| 0 <= i < j < e@.len() implies text::precedes(
        #[trigger] e@[i].0,
        #[trigger] e@[j].0,
    ) by {
        assert(text::precedes(e.entries@[i].0@, e.entries@[j].0@));
    }
}

/// Replacing the entry at `p` by one with the same key changes nothing else.
proof fn lemma_entry_replaced(
    before: Seq<(Seq<char>, ValueView)>,
    p: int,
    x: (Seq<char>, ValueView),
)
    requires
        keys_ascend(before),
        0 <= p < before.len(),
        before[p].0 == x.0,
    ensures
        keys_ascend(before.update(p, x)),
        forall|k: Seq<char>, v: ValueView| #[trigger]
            before.update(p, x).contains((k, v)) <==> if k == x.0 {
                v == x.1
            } else {
                before.contains((k, v))
            },
{
    let after = before.update(p, x);
    assert forall|i: int, j: int| 0 <= i < j < after.len() implies text::precedes(
        #[trigger] after[i].0,
        #[trigger] after[j].0,
    ) by {
        assert(text::precedes(before[i].0, before[j].0));
    }
    assert forall|k: Seq<char>, v: ValueView| #[trigger]
        after.contains((k, v)) <==> if k == x.0 {
            v == x.1
        } else {
            before.contains((k, v))
        } by {
        assert(after[p] == x);
        text::lemma_precedes_irreflexive(x.0);
        if after.contains((k, v)) {
            let i = choose|i: int| 0 <= i < after.len() && after[i] == (k, v);
            if i != p {
                assert(before[i] == (k, v));
                assert(i < p ==> text::precedes(before[i].0, before[p].0));
                assert(p < i ==> text::precedes(before[p].0, before[i].0));
            }
        }
        if k != x.0 && before.contains((k, v)) {
            let i = choose|i: int| 0 <= i < before.len() && before[i] == (k, v);
            assert(after[i] == (k, v));
        }
    }
}

/// Inserting an entry with a new key at its place changes nothing else.
proof fn lemma_entry_inserted(
    before: Seq<(Seq<char>, ValueView)>,
    p: int,
    x: (Seq<char>, ValueView),
)
    requires
        keys_ascend(before),
        0 <= p <= before.len(),
        forall|i: int| 0 <= i < p ==> text::precedes(#[trigger] before[i].0, x.0),
        p < before.len() ==> text::precedes(x.0, before[p].0),
    ensures
        keys_ascend(before.insert(p, x)),
        forall|k: Seq<char>, v: ValueView| #[trigger]
            before.insert(p, x).contains((k, v)) <==> if k == x.0 {
                v == x.1
            } else {
                before.contains((k, v))
            },
{
    let after = before.insert(p, x);
    assert forall|i: int| p <= i < before.len() implies text::precedes(
        x.0,
        #[trigger] before[i].0,
    ) by {
        if i > p {
            assert(text::precedes(before[p].0, before[i].0));
            text::lemma_precedes_transitive(x.0, before[p].0, before[i].0);
        }
    }
    assert forall|i: int, j: int| 0 <= i < j < after.len() implies text::precedes(
        #[trigger] after[i].0,
        #[trigger] after[j].0,
    ) by {
        let a = if i < p { i } else { i - 1 };
        let b = if j < p { j } else { j - 1 };
        if i != p && j != p {
            assert(text::precedes(before[a].0, before[b].0));
        } else if i == p {
            assert(text::precedes(x.0, before[b].0));
        }
    }
    assert forall|k: Seq<char>, v: ValueView| #[trigger]
        after.contains((k, v)) <==> if k == x.0 {
            v == x.1
        } else {
            before.contains((k, v))
        } by {
        assert(after[p] == x);
        text::lemma_precedes_irreflexive(x.0);
        if after.contains((k, v)) {
            let i = choose|i: int| 0 <= i < after.len() && after[i] == (k, v);
            if i < p {
                assert(before[i] == (k, v));
                assert(text::precedes(before[i].0, x.0));
                assert(k != x.0);
            } else if i > p {
                assert(before[i - 1] == (k, v));
                assert(text::precedes(x.0, before[i - 1].0));
                assert(k != x.0);
            } else {
                assert((k, v) == x);
            }
        }
        if k == x.0 && v == x.1 {
            assert(after[p] == (k, v));
        }
        if k != x.0 && before.contains((k, v)) {
            let i = choose|i: int| 0 <= i < before.len() && before[i] == (k, v);
            if i < p {
                assert(after[i] == (k, v));
            } else {
                assert(after[i + 1] == (k, v));
            }
        }
    }
}

impl Entries {
    /// The value without an entry.
    pub fn new() -> (r: Entries)
        ensures
            r@ == Seq::<(Seq<char>, ValueView)>::empty(),
    {
        let r = Entries { entries: Vec::new() };
        assert(r@ =~= Seq::<(Seq<char>, ValueView)>::empty());
        r
    }

    /// The entries in a list in which the keys stand in their order.
    pub fn from_ascending(entries: Vec<(String, Value)>) -> (r: Entries)
        requires
            keys_ascend(seqs::deep(entries@)),
        ensures
            r@ == seqs::deep(entries@),
    {
        assert forall|i: int, j: int| 0 <= i < j < entries@.len() implies text::precedes(
            #[trigger] entries@[i].0@,
            #[trigger] entries@[j].0@,
        ) by {
            let all = seqs::deep(entries@);
            assert(text::precedes(all[i].0, all[j].0));
        }
        let r = Entries { entries };
        assert(r@ =~= seqs::deep(entries@));
        r
    }

    /// The entries with one more, which takes the place of one with the same key.
    pub fn with(self, key: String, value: Value) -> (r: Entries)
        ensures
            keys_ascend(r@),
            forall|k: Seq<char>, v: ValueView| #[trigger]
                r@.contains((k, v)) <==> if k == key@ {
                    v == value@
                } else {
                    self@.contains((k, v))
                },
    {
        proof {
            use_type_invariant(&self);
            lemma_ordered(self);
        }
        let ghost before = self@;
        let mut entries = self.entries;
        let ghost x = (key@, value@);
        let mut p: usize = 0;
        while p < entries.len() && comes_before(entries[p].0.as_str(), key.as_str())
            invariant
                p <= entries@.len(),
                seqs::deep(entries@) == before,
                forall|i: int| 0 <= i < p ==> text::precedes(#[trigger] before[i].0, key@),
            decreases entries@.len() - p,
        {
            assert(before[p as int].0 == entries@[p as int].0@);
            p += 1;
        }
        if p < entries.len() && same(entries[p].0.as_str(), key.as_str()) {
            assert(before[p as int].0 == entries@[p as int].0@);
            entries.remove(p);
            entries.insert(p, (key, value));
            assert(seqs::deep(entries@) =~= before.update(p as int, x));
            proof {
                lemma_entry_replaced(before, p as int, x);
            }
        } else {
            if p < entries.len() {
                assert(before[p as int].0 == entries@[p as int].0@);
                proof {
                    text::lemma_precedes_total(before[p as int].0, key@);
                }
            }
            entries.insert(p, (key, value));
            assert(seqs::deep(entries@) =~= before.insert(p as int, x));
            proof {
                lemma_entry_inserted(before, p as int, x);
            }
        }
        Entries::from_ascending(entries)
    }

    /// The entries as a list.
    pub fn as_vec(&self) -> (r: &Vec<(String, Value)>)
        ensures
            seqs::deep(r@) == self@,
            keys_ascend(self@),
    {
        proof {
            use_type_invariant(self);
            lemma_ordered(*self);
        }
        &self.entries
    }
}

impl Clone for Entries {
    fn clone(&self) -> (r: Entries)
        ensures
            r@ == self@,
        decreases self,
    {
        proof {
            use_type_invariant(self);
        }
        let mut out: Vec<(String, Value)> = Vec::new();
        let mut i: usize = 0;
        while i < self.entries.len()
            invariant
                i <= self.entries@.len(),
                seqs::deep(out@) =~= seqs::deep(self.entries@).take(i as int),
            decreases self.entries@.len() - i,
        {
            let entry = &self.entries[i];
            out.push((entry.0.clone(), entry.1.clone()));
            i += 1;
        }
        assert(seqs::deep(out@) =~= seqs::deep(self.entries@));
        assert forall|i: int, j: int| 0 <= i < j < out@.len() implies text::precedes(
            #[trigger] out@[i].0@,
            #[trigger] out@[j].0@,
        ) by {
            let all = seqs::deep(out@);
            assert(all[i] == seqs::deep(self.entries@)[i]);
            assert(all[j] == seqs::deep(self.entries@)[j]);
        }
        let r = Entries { entries: out };
        assert(r@ =~= seqs::deep(out@));
        assert(self@ =~= seqs::deep(self.entries@));
        r
    }
}

impl Clone for Value {
    fn clone(&self) -> (r: Value)
        ensures
            r@ == self@,
        decreases self,
    {
        match self {
            Value::Variable(name) => Value::Variable(name.clone()),
            Value::Int(n) => Value::Int(*n),
            Value::Float(x) => Value::Float(*x),
            Value::String(s) => Value::String(s.clone()),
            Value::Boolean(b) => Value::Boolean(*b),
            Value::Null => Value::Null,
            Value::Enum(name) => Value::Enum(name.clone()),
            Value::List(items) => {
                let mut out: Vec<Value> = Vec::new();
                let mut i: usize = 0;
                while i < items.len()
                    invariant
                        i <= items@.len(),
                        *self matches Value::List(all) && all == *items,
                        seqs::deep(out@) =~= seqs::deep(items@).take(i as int),
                    decreases items@.len() - i,
                {
                    out.push(items[i].clone());
                    i += 1;
                }
                assert(seqs::deep(out@) =~= seqs::deep(items@));
                let r = Value::List(out);
                proof {
                    lemma_list_view(*self);
                    lemma_list_view(r);
                }
                r
            },
            Value::Object(entries) => Value::Object(entries.clone()),
        }
    }
}

/// A copy of an optional text.
pub fn copy_text(text: &Option<String>) -> (r: Option<String>)
    ensures
        seqs::opt(r) == seqs::opt(*text),
{
    match text {
        Some(s) => Some(s.clone()),
        None => None,
    }
}

/// A copy of an optional value.
pub fn copy_value(value: &Option<Value>) -> (r: Option<Value>)
    ensures
        seqs::opt(r) == seqs::opt(*value),
{
    match value {
        Some(v) => Some(v.clone()),
        None => None,
    }
}

/// A copy of the arguments of a directive.
pub fn copy_entries(entries: &Vec<(String, Value)>) -> (r: Vec<(String, Value)>)
    ensures
        seqs::deep(r@) == seqs::deep(entries@),
{
    let mut r: Vec<(String, Value)> = Vec::new();
    let mut i: usize = 0;
    while i < entries.len()
        invariant
            i <= entries@.len(),
            seqs::deep(r@) =~= seqs::deep(entries@).take(i as int),
        decreases entries@.len() - i,
    {
        let entry = &entries[i];
        r.push((entry.0.clone(), entry.1.clone()));
        i += 1;
    }
    r
}

/// A copy of a list of names.
pub fn copy_names(items: &Vec<String>) -> (r: Vec<String>)
    ensures
        seqs::deep(r@) == seqs::deep(items@),
{
    let mut r: Vec<String> = Vec::new();
    let mut i: usize = 0;
    while i < items.len()
        invariant
            i <= items@.len(),
            seqs::deep(r@) =~= seqs::deep(items@).take(i as int),
        decreases items@.len() - i,
    {
        r.push(items[i].clone());
        i += 1;
    }
    r
}

/// A directive, such as `@entity(immutable: true)`.
#[derive(Debug, PartialEq)]
pub struct Directive {
    pub position: Pos,
    pub name: String,
    pub arguments: Vec<(String, Value)>,
}

/// What a `Directive` stands for.
#[verifier::ext_equal]
pub struct DirectiveView {
    pub position: Pos,
    pub name: Seq<char>,
    pub arguments: Seq<(Seq<char>, ValueView)>,
}

impl View for Directive {
    type V = DirectiveView;

    open spec fn view(&self) -> DirectiveView {
        DirectiveView {
            position: self.position,
            name: self.name@,
            arguments: seqs::deep(self.arguments@),
        }
    }
}

impl Clone for Directive {
    fn clone(&self) -> (r: Directive)
        ensures
            r@ == self@,
    {
        Directive {
            position: self.position,
            name: self.name.clone(),
            arguments: copy_entries(&self.arguments),
        }
    }
}

/// A copy of a list of directives.
pub fn copy_directives(items: &Vec<Directive>) -> (r: Vec<Directive>)
    ensures
        seqs::deep(r@) == seqs::deep(items@),
{
    let mut r: Vec<Directive> = Vec::new();
    let mut i: usize = 0;
    while i < items.len()
        invariant
            i <= items@.len(),
            seqs::deep(r@) =~= seqs::deep(items@).take(i as int),
        decreases items@.len() - i,
    {
        r.push(items[i].clone());
        i += 1;
    }
    r
}

/// An argument of a field, or a field of an input object type.
#[derive(Debug, PartialEq)]
pub struct InputValue {
    pub position: Pos,
    pub description: Option<String>,
    pub name: String,
    pub value_type: Type,
    pub default_value: Option<Value>,
    pub directives: Vec<Directive>,
}

/// What an `InputValue` stands for.
#[verifier::ext_equal]
pub struct InputValueView {
    pub position: Pos,
    pub description: Option<Seq<char>>,
    pub name: Seq<char>,
    pub value_type: TypeView,
    pub default_value: Option<ValueView>,
    pub directives: Seq<DirectiveView>,
}

impl View for InputValue {
    type V = InputValueView;

    open spec fn view(&self) -> InputValueView {
        InputValueView {
            position: self.position,
            description: seqs::opt(self.description),
            name: self.name@,
            value_type: self.value_type@,
            default_value: seqs::opt(self.default_value),
            directives: seqs::deep(self.directives@),
        }
    }
}

impl Clone for InputValue {
    fn clone(&self) -> (r: InputValue)
        ensures
            r@ == self@,
    {
        InputValue {
            position: self.position,
            description: copy_text(&self.description),
            name: self.name.clone(),
            value_type: self.value_type.clone(),
            default_value: copy_value(&self.default_value),
            directives: copy_directives(&self.directives),
        }
    }
}

/// A copy of a list of input values.
pub fn copy_input_values(items: &Vec<InputValue>) -> (r: Vec<InputValue>)
    ensures
        seqs::deep(r@) == seqs::deep(items@),
{
    let mut r: Vec<InputValue> = Vec::new();
    let mut i: usize = 0;
    while i < items.len()
        invariant
            i <= items@.len(),
            seqs::deep(r@) =~= seqs::deep(items@).take(i as int),
        decreases items@.len() - i,
    {
        r.push(items[i].clone());
        i += 1;
    }
    r
}

/// A field of an object or interface type.
#[derive(Debug, PartialEq)]
pub struct Field {
    pub position: Pos,
    pub description: Option<String>,
    pub name: String,
    pub arguments: Vec<InputValue>,
    pub field_type: Type,
    pub directives: Vec<Directive>,
    /// The field in the schema language, as the parser prints it. The parser sets
    /// it; a field that is made by hand has to bring the text that fits it.
    pub text: String,
}

/// What a `Field` stands for.
#[verifier::ext_equal]
pub struct FieldView {
    pub position: Pos,
    pub description: Option<Seq<char>>,
    pub name: Seq<char>,
    pub arguments: Seq<InputValueView>,
    pub field_type: TypeView,
    pub directives: Seq<DirectiveView>,
    pub text: Seq<char>,
}

impl View for Field {
    type V = FieldView;

    open spec fn view(&self) -> FieldView {
        FieldView {
            position: self.position,
            description: seqs::opt(self.description),
            name: self.name@,
            arguments: seqs::deep(self.arguments@),
            field_type: self.field_type@,
            directives: seqs::deep(self.directives@),
            text: self.text@,
        }
    }
}

impl Clone for Field {
    fn clone(&self) -> (r: Field)
        ensures
            r@ == self@,
    {
        Field {
            position: self.position,
            description: copy_text(&self.description),
            name: self.name.clone(),
            arguments: copy_input_values(&self.arguments),
            field_type: self.field_type.clone(),
            directives: copy_directives(&self.directives),
            text: self.text.clone(),
        }
    }
}

/// A copy of a list of fields.
pub fn copy_fields(items: &Vec<Field>) -> (r: Vec<Field>)
    ensures
        seqs::deep(r@) == seqs::deep(items@),
{
    let mut r: Vec<Field> = Vec::new();
    let mut i: usize = 0;
    while i < items.len()
        invariant
            i <= items@.len(),
            seqs::deep(r@) =~= seqs::deep(items@).take(i as int),
        decreases items@.len() - i,
    {
        r.push(items[i].clone());
        i += 1;
    }
    r
}

/// The definition of a scalar type.
#[derive(Debug, PartialEq)]
pub struct ScalarType {
    pub position: Pos,
    pub description: Option<String>,
    pub name: String,
    pub directives: Vec<Directive>,
}

/// What a `ScalarType` stands for.
#[verifier::ext_equal]
pub struct ScalarTypeView {
    pub position: Pos,
    pub description: Option<Seq<char>>,
    pub name: Seq<char>,
    pub directives: Seq<DirectiveView>,
}

impl View for ScalarType {
    type V = ScalarTypeView;

    open spec fn view(&self) -> ScalarTypeView {
        ScalarTypeView {
            position: self.position,
            description: seqs::opt(self.description),
            name: self.name@,
            directives: seqs::deep(self.directives@),
        }
    }
}

impl Clone for ScalarType {
    fn clone(&self) -> (r: ScalarType)
        ensures
            r@ == self@,
    {
        ScalarType {
            position: self.position,
            description: copy_text(&self.description),
            name: self.name.clone(),
            directives: copy_directives(&self.directives),
        }
    }
}

/// The definition of an object type.
#[derive(Debug, PartialEq)]
pub struct ObjectType {
    pub position: Pos,
    pub description: Option<String>,
    pub name: String,
    pub implements_interfaces: Vec<String>,
    pub directives: Vec<Directive>,
    pub fields: Vec<Field>,
}

/// What an `ObjectType` stands for.
#[verifier::ext_equal]
pub struct ObjectTypeView {
    pub position: Pos,
    pub description: Option<Seq<char>>,
    pub name: Seq<char>,
    pub implements_interfaces: Seq<Seq<char>>,
    pub directives: Seq<DirectiveView>,
    pub fields: Seq<FieldView>,
}

impl View for ObjectType {
    type V = ObjectTypeView;

    open spec fn view(&self) -> ObjectTypeView {
        ObjectTypeView {
            position: self.position,
            description: seqs::opt(self.description),
            name: self.name@,
            implements_interfaces: seqs::deep(self.implements_interfaces@),
            directives: seqs::deep(self.directives@),
            fields: seqs::deep(self.fields@),
        }
    }
}

impl Clone for ObjectType {
    fn clone(&self) -> (r: ObjectType)
        ensures
            r@ == self@,
    {
        ObjectType {
            position: self.position,
            description: copy_text(&self.description),
            name: self.name.clone(),
            implements_interfaces: copy_names(&self.implements_interfaces),
            directives: copy_directives(&self.directives),
            fields: copy_fields(&self.fields),
        }
    }
}

/// The definition of an interface.
#[derive(Debug, PartialEq)]
pub struct InterfaceType {
    pub position: Pos,
    pub description: Option<String>,
    pub name: String,
    pub implements_interfaces: Vec<String>,
    pub directives: Vec<Directive>,
    pub fields: Vec<Field>,
}

/// What an `InterfaceType` stands for.
#[verifier::ext_equal]
pub struct InterfaceTypeView {
    pub position: Pos,
    pub description: Option<Seq<char>>,
    pub name: Seq<char>,
    pub implements_interfaces: Seq<Seq<char>>,
    pub directives: Seq<DirectiveView>,
    pub fields: Seq<FieldView>,
}

impl View for InterfaceType {
    type V = InterfaceTypeView;

    open spec fn view(&self) -> InterfaceTypeView {
        InterfaceTypeView {
            position: self.position,
            description: seqs::opt(self.description),
            name: self.name@,
            implements_interfaces: seqs::deep(self.implements_interfaces@),
            directives: seqs::deep(self.directives@),
            fields: seqs::deep(self.fields@),
        }
    }
}

impl Clone for InterfaceType {
    fn clone(&self) -> (r: InterfaceType)
        ensures
            r@ == self@,
    {
        InterfaceType {
            position: self.position,
            description: copy_text(&self.description),
            name: self.name.clone(),
            implements_interfaces: copy_names(&self.implements_interfaces),
            directives: copy_directives(&self.directives),
            fields: copy_fields(&self.fields),
        }
    }
}

/// The definition of a union type.
#[derive(Debug, PartialEq)]
pub struct UnionType {
    pub position: Pos,
    pub description: Option<String>,
    pub name: String,
    pub directives: Vec<Directive>,
    pub types: Vec<String>,
}

/// What a `UnionType` stands for.
#[verifier::ext_equal]
pub struct UnionTypeView {
    pub position: Pos,
    pub description: Option<Seq<char>>,
    pub name: Seq<char>,
    pub directives: Seq<DirectiveView>,
    pub types: Seq<Seq<char>>,
}

impl View for UnionType {
    type V = UnionTypeView;

    open spec fn view(&self) -> UnionTypeView {
        UnionTypeView {
            position: self.position,
            description: seqs::opt(self.description),
            name: self.name@,
            directives: seqs::deep(self.directives@),
            types: seqs::deep(self.types@),
        }
    }
}

impl Clone for UnionType {
    fn clone(&self) -> (r: UnionType)
        ensures
            r@ == self@,
    {
        UnionType {
            position: self.position,
            description: copy_text(&self.description),
            name: self.name.clone(),
            directives: copy_directives(&self.directives),
            types: copy_names(&self.types),
        }
    }
}

/// A value of an enum type.
#[derive(Debug, PartialEq)]
pub struct EnumValue {
    pub position: Pos,
    pub description: Option<String>,
    pub name: String,
    pub directives: Vec<Directive>,
}

/// What an `EnumValue` stands for.
#[verifier::ext_equal]
pub struct EnumValueView {
    pub position: Pos,
    pub description: Option<Seq<char>>,
    pub name: Seq<char>,
    pub directives: Seq<DirectiveView>,
}

impl View for EnumValue {
    type V = EnumValueView;

    open spec fn view(&self) -> EnumValueView {
        EnumValueView {
            position: self.position,
            description: seqs::opt(self.description),
            name: self.name@,
            directives: seqs::deep(self.directives@),
        }
    }
}

impl Clone for EnumValue {
    fn clone(&self) -> (r: EnumValue)
        ensures
            r@ == self@,
    {
        EnumValue {
            position: self.position,
            description: copy_text(&self.description),
            name: self.name.clone(),
            directives: copy_directives(&self.directives),
        }
    }
}

/// A copy of the values of an enum type.
pub fn copy_enum_values(items: &Vec<EnumValue>) -> (r: Vec<EnumValue>)
    ensures
        seqs::deep(r@) == seqs::deep(items@),
{
    let mut r: Vec<EnumValue> = Vec::new();
    let mut i: usize = 0;
    while i < items.len()
        invariant
            i <= items@.len(),
            seqs::deep(r@) =~= seqs::deep(items@).take(i as int),
        decreases items@.len() - i,
    {
        r.push(items[i].clone());
        i += 1;
    }
    r
}

/// The definition of an enum type.
#[derive(Debug, PartialEq)]
pub struct EnumType {
    pub position: Pos,
    pub description: Option<String>,
    pub name: String,
    pub directives: Vec<Directive>,
    pub values: Vec<EnumValue>,
}

/// What an `EnumType` stands for.
#[verifier::ext_equal]
pub struct EnumTypeView {
    pub position: Pos,
    pub description: Option<Seq<char>>,
    pub name: Seq<char>,
    pub directives: Seq<DirectiveView>,
    pub values: Seq<EnumValueView>,
}

impl View for EnumType {
    type V = EnumTypeView;

    open spec fn view(&self) -> EnumTypeView {
        EnumTypeView {
            position: self.position,
            description: seqs::opt(self.description),
            name: self.name@,
            directives: seqs::deep(self.directives@),
            values: seqs::deep(self.values@),
        }
    }
}

impl Clone for EnumType {
    fn clone(&self) -> (r: EnumType)
        ensures
            r@ == self@,
    {
        EnumType {
            position: self.position,
            description: copy_text(&self.description),
            name: self.name.clone(),
            directives: copy_directives(&self.directives),
            values: copy_enum_values(&self.values),
        }
    }
}

/// The definition of an input object type.
#[derive(Debug, PartialEq)]
pub struct InputObjectType {
    pub position: Pos,
    pub description: Option<String>,
    pub name: String,
    pub directives: Vec<Directive>,
    pub fields: Vec<InputValue>,
}

/// What an `InputObjectType` stands for.
#[verifier::ext_equal]
pub struct InputObjectTypeView {
    pub position: Pos,
    pub description: Option<Seq<char>>,
    pub name: Seq<char>,
    pub directives: Seq<DirectiveView>,
    pub fields: Seq<InputValueView>,
}

impl View for InputObjectType {
    type V = InputObjectTypeView;

    open spec fn view(&self) -> InputObjectTypeView {
        InputObjectTypeView {
            position: self.position,
            description: seqs::opt(self.description),
            name: self.name@,
            directives: seqs::deep(self.directives@),
            fields: seqs::deep(self.fields@),
        }
    }
}

impl Clone for InputObjectType {
    fn clone(&self) -> (r: InputObjectType)
        ensures
            r@ == self@,
    {
        InputObjectType {
            position: self.position,
            description: copy_text(&self.description),
            name: self.name.clone(),
            directives: copy_directives(&self.directives),
            fields: copy_input_values(&self.fields),
        }
    }
}

/// The definition of a type.
#[derive(Debug, PartialEq)]
pub enum TypeDefinition {
    Scalar(ScalarType),
    Object(ObjectType),
    Interface(InterfaceType),
    Union(UnionType),
    Enum(EnumType),
    InputObject(InputObjectType),
}

/// What a `TypeDefinition` stands for.
pub enum TypeDefinitionView {
    Scalar(ScalarTypeView),
    Object(ObjectTypeView),
    Interface(InterfaceTypeView),
    Union(UnionTypeView),
    Enum(EnumTypeView),
    InputObject(InputObjectTypeView),
}

impl View for TypeDefinition {
    type V = TypeDefinitionView;

    open spec fn view(&self) -> TypeDefinitionView {
        match self {
            TypeDefinition::Scalar(t) => TypeDefinitionView::Scalar(t@),
            TypeDefinition::Object(t) => TypeDefinitionView::Object(t@),
            TypeDefinition::Interface(t) => TypeDefinitionView::Interface(t@),
            TypeDefinition::Union(t) => TypeDefinitionView::Union(t@),
            TypeDefinition::Enum(t) => TypeDefinitionView::Enum(t@),
            TypeDefinition::InputObject(t) => TypeDefinitionView::InputObject(t@),
        }
    }
}

impl TypeDefinitionView {
    /// The name of the type.
    pub open spec fn name(self) -> Seq<char> {
        match self {
            TypeDefinitionView::Scalar(t) => t.name,
            TypeDefinitionView::Object(t) => t.name,
            TypeDefinitionView::Interface(t) => t.name,
            TypeDefinitionView::Union(t) => t.name,
            TypeDefinitionView::Enum(t) => t.name,
            TypeDefinitionView::InputObject(t) => t.name,
        }
    }

    /// The directives on the type.
    pub open spec fn directives(self) -> Seq<DirectiveView> {
        match self {
            TypeDefinitionView::Scalar(t) => t.directives,
            TypeDefinitionView::Object(t) => t.directives,
            TypeDefinitionView::Interface(t) => t.directives,
            TypeDefinitionView::Union(t) => t.directives,
            TypeDefinitionView::Enum(t) => t.directives,
            TypeDefinitionView::InputObject(t) => t.directives,
        }
    }

    /// The same definition with other directives.
    pub open spec fn with_directives(self, directives: Seq<DirectiveView>) -> TypeDefinitionView {
        match self {
            TypeDefinitionView::Scalar(t) => TypeDefinitionView::Scalar(
                ScalarTypeView { directives, ..t },
            ),
            TypeDefinitionView::Object(t) => TypeDefinitionView::Object(
                ObjectTypeView { directives, ..t },
            ),
            TypeDefinitionView::Interface(t) => TypeDefinitionView::Interface(
                InterfaceTypeView { directives, ..t },
            ),
            TypeDefinitionView::Union(t) => TypeDefinitionView::Union(
                UnionTypeView { directives, ..t },
            ),
            TypeDefinitionView::Enum(t) => TypeDefinitionView::Enum(
                EnumTypeView { directives, ..t },
            ),
            TypeDefinitionView::InputObject(t) => TypeDefinitionView::InputObject(
                InputObjectTypeView { directives, ..t },
            ),
        }
    }
}

impl TypeDefinition {
    /// The name of the type.
    pub fn name(&self) -> (r: &String)
        ensures
            r@ == self@.name(),
    {
        match self {
            TypeDefinition::Scalar(t) => &t.name,
            TypeDefinition::Object(t) => &t.name,
            TypeDefinition::Interface(t) => &t.name,
            TypeDefinition::Union(t) => &t.name,
            TypeDefinition::Enum(t) => &t.name,
            TypeDefinition::InputObject(t) => &t.name,
        }
    }

    /// The directives on the type.
    pub fn directives(&self) -> (r: &Vec<Directive>)
        ensures
            seqs::deep(r@) == self@.directives(),
    {
        match self {
            TypeDefinition::Scalar(t) => &t.directives,
            TypeDefinition::Object(t) => &t.directives,
            TypeDefinition::Interface(t) => &t.directives,
            TypeDefinition::Union(t) => &t.directives,
            TypeDefinition::Enum(t) => &t.directives,
            TypeDefinition::InputObject(t) => &t.directives,
        }
    }

    /// Puts one more directive behind those on the type.
    pub fn push_directive(&mut self, directive: Directive)
        ensures
            final(self)@ == old(self)@.with_directives(
                old(self)@.directives().push(directive@),
            ),
    {
        let ghost before = self@.directives();
        match self {
            TypeDefinition::Scalar(t) => {
                t.directives.push(directive);
                assert(seqs::deep(t.directives@) =~= before.push(directive@));
            },
            TypeDefinition::Object(t) => {
                t.directives.push(directive);
                assert(seqs::deep(t.directives@) =~= before.push(directive@));
            },
            TypeDefinition::Interface(t) => {
                t.directives.push(directive);
                assert(seqs::deep(t.directives@) =~= before.push(directive@));
            },
            TypeDefinition::Union(t) => {
                t.directives.push(directive);
                assert(seqs::deep(t.directives@) =~= before.push(directive@));
            },
            TypeDefinition::Enum(t) => {
                t.directives.push(directive);
                assert(seqs::deep(t.directives@) =~= before.push(directive@));
            },
            TypeDefinition::InputObject(t) => {
                t.directives.push(directive);
                assert(seqs::deep(t.directives@) =~= before.push(directive@));
            },
        }
    }
}

impl Clone for TypeDefinition {
    fn clone(&self) -> (r: TypeDefinition)
        ensures
            r@ == self@,
    {
        match self {
            TypeDefinition::Scalar(t) => TypeDefinition::Scalar(t.clone()),
            TypeDefinition::Object(t) => TypeDefinition::Object(t.clone()),
            TypeDefinition::Interface(t) => TypeDefinition::Interface(t.clone()),
            TypeDefinition::Union(t) => TypeDefinition::Union(t.clone()),
            TypeDefinition::Enum(t) => TypeDefinition::Enum(t.clone()),
            TypeDefinition::InputObject(t) => TypeDefinition::InputObject(t.clone()),
        }
    }
}

/// The definition of the root types of a schema.
#[derive(Debug, PartialEq)]
pub struct SchemaDefinition {
    pub position: Pos,
    pub directives: Vec<Directive>,
    pub query: Option<String>,
    pub mutation: Option<String>,
    pub subscription: Option<String>,
}

/// What a `SchemaDefinition` stands for.
#[verifier::ext_equal]
pub struct SchemaDefinitionView {
    pub position: Pos,
    pub directives: Seq<DirectiveView>,
    pub query: Option<Seq<char>>,
    pub mutation: Option<Seq<char>>,
    pub subscription: Option<Seq<char>>,
}

impl View for SchemaDefinition {
    type V = SchemaDefinitionView;

    open spec fn view(&self) -> SchemaDefinitionView {
        SchemaDefinitionView {
            position: self.position,
            directives: seqs::deep(self.directives@),
            query: seqs::opt(self.query),
            mutation: seqs::opt(self.mutation),
            subscription: seqs::opt(self.subscription),
        }
    }
}

impl Clone for SchemaDefinition {
    fn clone(&self) -> (r: SchemaDefinition)
        ensures
            r@ == self@,
    {
        SchemaDefinition {
            position: self.position,
            directives: copy_directives(&self.directives),
            query: copy_text(&self.query),
            mutation: copy_text(&self.mutation),
            subscription: copy_text(&self.subscription),
        }
    }
}

/// An extension of a scalar type.
#[derive(Debug, PartialEq)]
pub struct ScalarTypeExtension {
    pub position: Pos,
    pub name: String,
    pub directives: Vec<Directive>,
}

/// What a `ScalarTypeExtension` stands for.
#[verifier::ext_equal]
pub struct ScalarTypeExtensionView {
    pub position: Pos,
    pub name: Seq<char>,
    pub directives: Seq<DirectiveView>,
}

impl View for ScalarTypeExtension {
    type V = ScalarTypeExtensionView;

    open spec fn view(&self) -> ScalarTypeExtensionView {
        ScalarTypeExtensionView {
            position: self.position,
            name: self.name@,
            directives: seqs::deep(self.directives@),
        }
    }
}

impl Clone for ScalarTypeExtension {
    fn clone(&self) -> (r: ScalarTypeExtension)
        ensures
            r@ == self@,
    {
        ScalarTypeExtension {
            position: self.position,
            name: self.name.clone(),
            directives: copy_directives(&self.directives),
        }
    }
}

/// An extension of an object type.
#[derive(Debug, PartialEq)]
pub struct ObjectTypeExtension {
    pub position: Pos,
    pub name: String,
    pub implements_interfaces: Vec<String>,
    pub directives: Vec<Directive>,
    pub fields: Vec<Field>,
}

/// What an `ObjectTypeExtension` stands for.
#[verifier::ext_equal]
pub struct ObjectTypeExtensionView {
    pub position: Pos,
    pub name: Seq<char>,
    pub implements_interfaces: Seq<Seq<char>>,
    pub directives: Seq<DirectiveView>,
    pub fields: Seq<FieldView>,
}

impl View for ObjectTypeExtension {
    type V = ObjectTypeExtensionView;

    open spec fn view(&self) -> ObjectTypeExtensionView {
        ObjectTypeExtensionView {
            position: self.position,
            name: self.name@,
            implements_interfaces: seqs::deep(self.implements_interfaces@),
            directives: seqs::deep(self.directives@),
            fields: seqs::deep(self.fields@),
        }
    }
}

impl Clone for ObjectTypeExtension {
    fn clone(&self) -> (r: ObjectTypeExtension)
        ensures
            r@ == self@,
    {
        ObjectTypeExtension {
            position: self.position,
            name: self.name.clone(),
            implements_interfaces: copy_names(&self.implements_interfaces),
            directives: copy_directives(&self.directives),
            fields: copy_fields(&self.fields),
        }
    }
}

/// An extension of an interface.
#[derive(Debug, PartialEq)]
pub struct InterfaceTypeExtension {
    pub position: Pos,
    pub name: String,
    pub implements_interfaces: Vec<String>,
    pub directives: Vec<Directive>,
    pub fields: Vec<Field>,
}

/// What an `InterfaceTypeExtension` stands for.
#[verifier::ext_equal]
pub struct InterfaceTypeExtensionView {
    pub position: Pos,
    pub name: Seq<char>,
    pub implements_interfaces: Seq<Seq<char>>,
    pub directives: Seq<DirectiveView>,
    pub fields: Seq<FieldView>,
}

impl View for InterfaceTypeExtension {
    type V = InterfaceTypeExtensionView;

    open spec fn view(&self) -> InterfaceTypeExtensionView {
        InterfaceTypeExtensionView {
            position: self.position,
            name: self.name@,
            implements_interfaces: seqs::deep(self.implements_interfaces@),
            directives: seqs::deep(self.directives@),
            fields: seqs::deep(self.fields@),
        }
    }
}

impl Clone for InterfaceTypeExtension {
    fn clone(&self) -> (r: InterfaceTypeExtension)
        ensures
            r@ == self@,
    {
        InterfaceTypeExtension {
            position: self.position,
            name: self.name.clone(),
            implements_interfaces: copy_names(&self.implements_interfaces),
            directives: copy_directives(&self.directives),
            fields: copy_fields(&self.fields),
        }
    }
}

/// An extension of a union type.
#[derive(Debug, PartialEq)]
pub struct UnionTypeExtension {
    pub position: Pos,
    pub name: String,
    pub directives: Vec<Directive>,
    pub types: Vec<String>,
}

/// What a `UnionTypeExtension` stands for.
#[verifier::ext_equal]
pub struct UnionTypeExtensionView {
    pub position: Pos,
    pub name: Seq<char>,
    pub directives: Seq<DirectiveView>,
    pub types: Seq<Seq<char>>,
}

impl View for UnionTypeExtension {
    type V = UnionTypeExtensionView;

    open spec fn view(&self) -> UnionTypeExtensionView {
        UnionTypeExtensionView {
            position: self.position,
            name: self.name@,
            directives: seqs::deep(self.directives@),
            types: seqs::deep(self.types@),
        }
    }
}

impl Clone for UnionTypeExtension {
    fn clone(&self) -> (r: UnionTypeExtension)
        ensures
            r@ == self@,
    {
        UnionTypeExtension {
            position: self.position,
            name: self.name.clone(),
            directives: copy_directives(&self.directives),
            types: copy_names(&self.types),
        }
    }
}

/// An extension of an enum type.
#[derive(Debug, PartialEq)]
pub struct EnumTypeExtension {
    pub position: Pos,
    pub name: String,
    pub directives: Vec<Directive>,
    pub values: Vec<EnumValue>,
}

/// What an `EnumTypeExtension` stands for.
#[verifier::ext_equal]
pub struct EnumTypeExtensionView {
    pub position: Pos,
    pub name: Seq<char>,
    pub directives: Seq<DirectiveView>,
    pub values: Seq<EnumValueView>,
}

impl View for EnumTypeExtension {
    type V = EnumTypeExtensionView;

    open spec fn view(&self) -> EnumTypeExtensionView {
        EnumTypeExtensionView {
            position: self.position,
            name: self.name@,
            directives: seqs::deep(self.directives@),
            values: seqs::deep(self.values@),
        }
    }
}

impl Clone for EnumTypeExtension {
    fn clone(&self) -> (r: EnumTypeExtension)
        ensures
            r@ == self@,
    {
        EnumTypeExtension {
            position: self.position,
            name: self.name.clone(),
            directives: copy_directives(&self.directives),
            values: copy_enum_values(&self.values),
        }
    }
}

/// An extension of an input object type.
#[derive(Debug, PartialEq)]
pub struct InputObjectTypeExtension {
    pub position: Pos,
    pub name: String,
    pub directives: Vec<Directive>,
    pub fields: Vec<InputValue>,
}

/// What an `InputObjectTypeExtension` stands for.
#[verifier::ext_equal]
pub struct InputObjectTypeExtensionView {
    pub position: Pos,
    pub name: Seq<char>,
    pub directives: Seq<DirectiveView>,
    pub fields: Seq<InputValueView>,
}

impl View for InputObjectTypeExtension {
    type V = InputObjectTypeExtensionView;

    open spec fn view(&self) -> InputObjectTypeExtensionView {
        InputObjectTypeExtensionView {
            position: self.position,
            name: self.name@,
            directives: seqs::deep(self.directives@),
            fields: seqs::deep(self.fields@),
        }
    }
}

impl Clone for InputObjectTypeExtension {
    fn clone(&self) -> (r: InputObjectTypeExtension)
        ensures
            r@ == self@,
    {
        InputObjectTypeExtension {
            position: self.position,
            name: self.name.clone(),
            directives: copy_directives(&self.directives),
            fields: copy_input_values(&self.fields),
        }
    }
}

/// The definition of a directive. The places where the directive may stand are held
/// by their names, such as `FIELD_DEFINITION`.
#[derive(Debug, PartialEq)]
pub struct DirectiveDefinition {
    pub position: Pos,
    pub description: Option<String>,
    pub name: String,
    pub arguments: Vec<InputValue>,
    pub repeatable: bool,
    pub locations: Vec<String>,
}

/// What a `DirectiveDefinition` stands for.
#[verifier::ext_equal]
pub struct DirectiveDefinitionView {
    pub position: Pos,
    pub description: Option<Seq<char>>,
    pub name: Seq<char>,
    pub arguments: Seq<InputValueView>,
    pub repeatable: bool,
    pub locations: Seq<Seq<char>>,
}

impl View for DirectiveDefinition {
    type V = DirectiveDefinitionView;

    open spec fn view(&self) -> DirectiveDefinitionView {
        DirectiveDefinitionView {
            position: self.position,
            description: seqs::opt(self.description),
            name: self.name@,
            arguments: seqs::deep(self.arguments@),
            repeatable: self.repeatable,
            locations: seqs::deep(self.locations@),
        }
    }
}

impl Clone for DirectiveDefinition {
    fn clone(&self) -> (r: DirectiveDefinition)
        ensures
            r@ == self@,
    {
        DirectiveDefinition {
            position: self.position,
            description: copy_text(&self.description),
            name: self.name.clone(),
            arguments: copy_input_values(&self.arguments),
            repeatable: self.repeatable,
            locations: copy_names(&self.locations),
        }
    }
}

/// An extension of a type.
#[derive(Debug, PartialEq)]
pub enum TypeExtension {
    Scalar(ScalarTypeExtension),
    Object(ObjectTypeExtension),
    Interface(InterfaceTypeExtension),
    Union(UnionTypeExtension),
    Enum(EnumTypeExtension),
    InputObject(InputObjectTypeExtension),
}

/// What a `TypeExtension` stands for.
pub enum TypeExtensionView {
    Scalar(ScalarTypeExtensionView),
    Object(ObjectTypeExtensionView),
    Interface(InterfaceTypeExtensionView),
    Union(UnionTypeExtensionView),
    Enum(EnumTypeExtensionView),
    InputObject(InputObjectTypeExtensionView),
}

impl View for TypeExtension {
    type V = TypeExtensionView;

    open spec fn view(&self) -> TypeExtensionView {
        match self {
            TypeExtension::Scalar(t) => TypeExtensionView::Scalar(t@),
            TypeExtension::Object(t) => TypeExtensionView::Object(t@),
            TypeExtension::Interface(t) => TypeExtensionView::Interface(t@),
            TypeExtension::Union(t) => TypeExtensionView::Union(t@),
            TypeExtension::Enum(t) => TypeExtensionView::Enum(t@),
            TypeExtension::InputObject(t) => TypeExtensionView::InputObject(t@),
        }
    }
}

impl Clone for TypeExtension {
    fn clone(&self) -> (r: TypeExtension)
        ensures
            r@ == self@,
    {
        match self {
            TypeExtension::Scalar(t) => TypeExtension::Scalar(t.clone()),
            TypeExtension::Object(t) => TypeExtension::Object(t.clone()),
            TypeExtension::Interface(t) => TypeExtension::Interface(t.clone()),
            TypeExtension::Union(t) => TypeExtension::Union(t.clone()),
            TypeExtension::Enum(t) => TypeExtension::Enum(t.clone()),
            TypeExtension::InputObject(t) => TypeExtension::InputObject(t.clone()),
        }
    }
}

/// A definition at the top of a document.
#[derive(Debug, PartialEq)]
pub enum Definition {
    SchemaDefinition(SchemaDefinition),
    TypeDefinition(TypeDefinition),
    TypeExtension(TypeExtension),
    DirectiveDefinition(DirectiveDefinition),
}

/// What a `Definition` stands for.
pub enum DefinitionView {
    SchemaDefinition(SchemaDefinitionView),
    TypeDefinition(TypeDefinitionView),
    TypeExtension(TypeExtensionView),
    DirectiveDefinition(DirectiveDefinitionView),
}

impl View for Definition {
    type V = DefinitionView;

    open spec fn view(&self) -> DefinitionView {
        match self {
            Definition::SchemaDefinition(d) => DefinitionView::SchemaDefinition(d@),
            Definition::TypeDefinition(d) => DefinitionView::TypeDefinition(d@),
            Definition::TypeExtension(d) => DefinitionView::TypeExtension(d@),
            Definition::DirectiveDefinition(d) => DefinitionView::DirectiveDefinition(d@),
        }
    }
}

impl Clone for Definition {
    fn clone(&self) -> (r: Definition)
        ensures
            r@ == self@,
    {
        match self {
            Definition::SchemaDefinition(d) => Definition::SchemaDefinition(d.clone()),
            Definition::TypeDefinition(d) => Definition::TypeDefinition(d.clone()),
            Definition::TypeExtension(d) => Definition::TypeExtension(d.clone()),
            Definition::DirectiveDefinition(d) => Definition::DirectiveDefinition(d.clone()),
        }
    }
}

/// A schema document.
#[derive(Debug, PartialEq)]
pub struct Document {
    pub definitions: Vec<Definition>,
}

impl View for Document {
    type V = Seq<DefinitionView>;

    open spec fn view(&self) -> Seq<DefinitionView> {
        seqs::deep(self.definitions@)
    }
}

/// A copy of a list of definitions.
pub fn copy_definitions(items: &Vec<Definition>) -> (r: Vec<Definition>)
    ensures
        seqs::deep(r@) == seqs::deep(items@),
{
    let mut r: Vec<Definition> = Vec::new();
    let mut i: usize = 0;
    while i < items.len()
        invariant
            i <= items@.len(),
            seqs::deep(r@) =~= seqs::deep(items@).take(i as int),
        decreases items@.len() - i,
    {
        r.push(items[i].clone());
        i += 1;
    }
    r
}

impl Clone for Document {
    fn clone(&self) -> (r: Document)
        ensures
            r@ == self@,
    {
        Document { definitions: copy_definitions(&self.definitions) }
    }
}

} // verus!
