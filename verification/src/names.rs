//! Sets of names.
use vstd::prelude::*;
use crate::ast::copy_names;
use crate::seqs;
use crate::text::same;

verus! {

broadcast use crate::seqs::lemma_deep_push;

/// A set of names.
#[derive(Debug)]
pub struct NameSet {
    names: Vec<String>,
}

impl View for NameSet {
    type V = Set<Seq<char>>;

    closed spec fn view(&self) -> Set<Seq<char>> {
        seqs::deep(self.names@).to_set()
    }
}

impl NameSet {
    /// No name is held twice.
    #[verifier::type_invariant]
    spec fn distinct(self) -> bool {
        seqs::deep(self.names@).no_duplicates()
    }
}

impl Clone for NameSet {
    fn clone(&self) -> (r: NameSet)
        ensures
            r@ == self@,
    {
        proof {
            use_type_invariant(self);
        }
        NameSet { names: copy_names(&self.names) }
    }
}

/// Whether a list holds a name.
pub fn contains_name(names: &Vec<String>, name: &str) -> (r: bool)
    ensures
        r == seqs::deep(names@).contains(name@),
{
    let ghost all = seqs::deep(names@);
    let mut i: usize = 0;
    while i < names.len()
        invariant
            i <= names@.len(),
            all == seqs::deep(names@),
            forall|j: int| 0 <= j < i ==> #[trigger] all[j] != name@,
        decreases names@.len() - i,
    {
        if same(names[i].as_str(), name) {
            assert(all[i as int] == name@);
            return true;
        }
        i += 1;
    }
    false
}

/// Whether each name of one list stands in another.
fn all_contained(names: &Vec<String>, others: &Vec<String>) -> (r: bool)
    ensures
        r == seqs::deep(names@).to_set().subset_of(seqs::deep(others@).to_set()),
{
    let ghost all = seqs::deep(names@);
    let ghost rest = seqs::deep(others@);
    let mut i: usize = 0;
    while i < names.len()
        invariant
            i <= names@.len(),
            all == seqs::deep(names@),
            rest == seqs::deep(others@),
            forall|j: int| 0 <= j < i ==> rest.contains(#[trigger] all[j]),
        decreases names@.len() - i,
    {
        if !contains_name(others, names[i].as_str()) {
            assert(all.to_set().contains(all[i as int]));
            assert(!rest.to_set().contains(all[i as int]));
            return false;
        }
        i += 1;
    }
    true
}

/// Sets are equal where they hold the same names.
impl PartialEq for NameSet {
    fn eq(&self, other: &NameSet) -> (r: bool) {
        let r = all_contained(&self.names, &other.names) && all_contained(&other.names, &self.names);
        assert(r ==> self@ =~= other@);
        r
    }
}

impl vstd::std_specs::cmp::PartialEqSpecImpl for NameSet {
    open spec fn obeys_eq_spec() -> bool {
        true
    }

    open spec fn eq_spec(&self, other: &NameSet) -> bool {
        self@ == other@
    }
}

impl NameSet {
    /// The set without a name.
    pub fn new() -> (r: NameSet)
        ensures
            r@ == Set::<Seq<char>>::empty(),
    {
        let r = NameSet { names: Vec::new() };
        assert(r@ =~= Set::<Seq<char>>::empty());
        r
    }

    /// Whether a name is in the set.
    pub fn contains(&self, name: &str) -> (r: bool)
        ensures
            r == self@.contains(name@),
    {
        contains_name(&self.names, name)
    }

    /// The set with one name more.
    pub fn with(self, name: String) -> (r: NameSet)
        ensures
            r@ == self@.insert(name@),
    {
        proof {
            use_type_invariant(&self);
        }
        if contains_name(&self.names, name.as_str()) {
            assert(self@ =~= self@.insert(name@));
            return self;
        }
        let ghost before = seqs::deep(self.names@);
        let ghost x = name@;
        let mut names = self.names;
        names.push(name);
        proof {
            let after = seqs::deep(names@);
            assert(after == before.push(x));
            assert forall|n: Seq<char>| #[trigger]
                after.to_set().contains(n) == before.to_set().insert(x).contains(n) by {
                if before.contains(n) {
                    let i = choose|i: int| 0 <= i < before.len() && before[i] == n;
                    assert(after[i] == n);
                }
                assert(after[before.len() as int] == x);
            }
            assert(after.to_set() =~= before.to_set().insert(x));
        }
        NameSet { names }
    }

    /// How many names are in the set.
    pub fn len(&self) -> (r: usize)
        ensures
            r == self@.len(),
    {
        proof {
            use_type_invariant(self);
            seqs::deep(self.names@).unique_seq_to_set();
        }
        self.names.len()
    }
}

} // verus!
