//! An ordered map from entity types to lists.
use vstd::prelude::*;
use crate::text;
use crate::seqs;
use crate::ast::{InterfaceType, ObjectType};
use crate::ids::EntityType;
use crate::text::{comes_before, same};

verus! {

broadcast use crate::seqs::lemma_deep_push;

/// The lists of a `TypeMap` with their keys, in the order of the keys.
pub type Groups<V> = Seq<(Seq<char>, Seq<V>)>;

/// The list of a group, if it has that key.
pub open spec fn group_named<V>(key: Seq<char>) -> spec_fn((Seq<char>, Seq<V>)) -> Option<Seq<V>> {
    |g: (Seq<char>, Seq<V>)|
        if g.0 == key {
            Some(g.1)
        } else {
            None
        }
}

/// The list at a key.
pub open spec fn group<V>(groups: Groups<V>, key: Seq<char>) -> Option<Seq<V>> {
    seqs::find_map(groups, group_named(key))
}

/// The list at a key, which is empty where there is none.
pub open spec fn group_or_empty<V>(groups: Groups<V>, key: Seq<char>) -> Seq<V> {
    match group(groups, key) {
        Some(items) => items,
        None => Seq::empty(),
    }
}

/// Whether the keys stand in the order of strings, so that none occurs twice.
pub open spec fn ascending<V>(groups: Groups<V>) -> bool {
    forall|i: int, j: int|
        0 <= i < j < groups.len() ==> text::precedes(#[trigger] groups[i].0, #[trigger] groups[j].0)
}

/// A map from entity types to lists, in the order of the entity types.
#[derive(Debug, PartialEq)]
pub struct TypeMap<T> {
    groups: Vec<(EntityType, Vec<T>)>,
}

impl<T: View> View for TypeMap<T> {
    type V = Groups<T::V>;

    closed spec fn view(&self) -> Groups<T::V> {
        Seq::new(
            self.groups@.len(),
            |i: int| (self.groups@[i].0@, seqs::deep(self.groups@[i].1@)),
        )
    }
}

impl Clone for TypeMap<ObjectType> {
    fn clone(&self) -> (r: TypeMap<ObjectType>)
        ensures
            r@ == self@,
    {
        let mut groups: Vec<(EntityType, Vec<ObjectType>)> = Vec::new();
        let mut i: usize = 0;
        while i < self.groups.len()
            invariant
                i <= self.groups@.len(),
                groups@.len() == i,
                forall|k: int|
                    0 <= k < i ==> (#[trigger] groups@[k]).0@ == self.groups@[k].0@ && seqs::deep(
                        groups@[k].1@,
                    ) == seqs::deep(self.groups@[k].1@),
            decreases self.groups@.len() - i,
        {
            let items = &self.groups[i].1;
            let mut list: Vec<ObjectType> = Vec::new();
            let mut j: usize = 0;
            while j < items.len()
                invariant
                    j <= items@.len(),
                    seqs::deep(list@) =~= seqs::deep(items@).take(j as int),
                decreases items@.len() - j,
            {
                list.push(items[j].clone());
                j += 1;
            }
            assert(seqs::deep(list@) =~= seqs::deep(items@));
            groups.push((self.groups[i].0.clone(), list));
            i += 1;
        }
        let r = TypeMap { groups };
        assert(r@ =~= self@);
        r
    }
}

impl Clone for TypeMap<InterfaceType> {
    fn clone(&self) -> (r: TypeMap<InterfaceType>)
        ensures
            r@ == self@,
    {
        let mut groups: Vec<(EntityType, Vec<InterfaceType>)> = Vec::new();
        let mut i: usize = 0;
        while i < self.groups.len()
            invariant
                i <= self.groups@.len(),
                groups@.len() == i,
                forall|k: int|
                    0 <= k < i ==> (#[trigger] groups@[k]).0@ == self.groups@[k].0@ && seqs::deep(
                        groups@[k].1@,
                    ) == seqs::deep(self.groups@[k].1@),
            decreases self.groups@.len() - i,
        {
            let items = &self.groups[i].1;
            let mut list: Vec<InterfaceType> = Vec::new();
            let mut j: usize = 0;
            while j < items.len()
                invariant
                    j <= items@.len(),
                    seqs::deep(list@) =~= seqs::deep(items@).take(j as int),
                decreases items@.len() - j,
            {
                list.push(items[j].clone());
                j += 1;
            }
            assert(seqs::deep(list@) =~= seqs::deep(items@));
            groups.push((self.groups[i].0.clone(), list));
            i += 1;
        }
        let r = TypeMap { groups };
        assert(r@ =~= self@);
        r
    }
}

/// Replacing the list at `p` changes the list at that key alone.
proof fn lemma_update<V>(groups: Groups<V>, p: int, items: Seq<V>, key: Seq<char>)
    requires
        0 <= p < groups.len(),
        ascending(groups),
    ensures
        ascending(groups.update(p, (groups[p].0, items))),
        group(groups.update(p, (groups[p].0, items)), key) == if key == groups[p].0 {
            Some(items)
        } else {
            group(groups, key)
        },
{
    let after = groups.update(p, (groups[p].0, items));
    assert forall|i: int, j: int| 0 <= i < j < after.len() implies text::precedes(
        #[trigger] after[i].0,
        #[trigger] after[j].0,
    ) by {
        assert(text::precedes(groups[i].0, groups[j].0));
    }
    lemma_group(groups, key);
    lemma_group(after, key);
    if key == groups[p].0 {
        assert(after[p].0 == key);
        lemma_group_at(after, p);
    } else if group(groups, key) is Some {
        let i = choose|i: int| 0 <= i < groups.len() && #[trigger] groups[i].0 == key;
        lemma_group_at(groups, i);
        lemma_group_at(after, i);
    } else {
        assert forall|i: int| 0 <= i < after.len() implies #[trigger] after[i].0 != key by {
            assert(groups[i].0 != key);
        }
    }
}

/// Inserting a list with a new key at its place changes the list at that key
/// alone.
proof fn lemma_insert<V>(groups: Groups<V>, p: int, new_key: Seq<char>, items: Seq<V>, key: Seq<char>)
    requires
        0 <= p <= groups.len(),
        ascending(groups),
        forall|i: int| 0 <= i < p ==> text::precedes(#[trigger] groups[i].0, new_key),
        forall|i: int| p <= i < groups.len() ==> text::precedes(new_key, #[trigger] groups[i].0),
    ensures
        ascending(groups.insert(p, (new_key, items))),
        group(groups.insert(p, (new_key, items)), key) == if key == new_key {
            Some(items)
        } else {
            group(groups, key)
        },
{
    let after = groups.insert(p, (new_key, items));
    assert forall|i: int, j: int| 0 <= i < j < after.len() implies text::precedes(
        #[trigger] after[i].0,
        #[trigger] after[j].0,
    ) by {
        if i < p && j < p {
            assert(text::precedes(groups[i].0, groups[j].0));
        } else if i < p && j > p {
            assert(text::precedes(groups[i].0, groups[j - 1].0));
        } else if i > p {
            assert(text::precedes(groups[i - 1].0, groups[j - 1].0));
        } else if i == p {
            assert(text::precedes(new_key, groups[j - 1].0));
        }
    }
    lemma_group(groups, key);
    lemma_group(after, key);
    if key == new_key {
        assert(after[p].0 == key);
        lemma_group_at(after, p);
    } else if group(groups, key) is Some {
        let i = choose|i: int| 0 <= i < groups.len() && #[trigger] groups[i].0 == key;
        lemma_group_at(groups, i);
        if i < p {
            lemma_group_at(after, i);
        } else {
            lemma_group_at(after, i + 1);
        }
    } else {
        assert forall|i: int| 0 <= i < after.len() implies #[trigger] after[i].0 != key by {
            if i < p {
                assert(groups[i].0 != key);
            } else if i > p {
                assert(groups[i - 1].0 != key);
            }
        }
    }
}

/// There is a list at a key exactly where a group has that key.
pub proof fn lemma_group<V>(groups: Groups<V>, key: Seq<char>)
    ensures
        group(groups, key) is Some <==> (exists|i: int|
            0 <= i < groups.len() && #[trigger] groups[i].0 == key),
{
    let f = group_named::<V>(key);
    seqs::lemma_find_map_some(groups, f);
    if group(groups, key) is Some {
        let i = choose|i: int| 0 <= i < groups.len() && (#[trigger] f(groups[i])) is Some;
        assert(groups[i].0 == key);
    }
    if exists|i: int| 0 <= i < groups.len() && #[trigger] groups[i].0 == key {
        let i = choose|i: int| 0 <= i < groups.len() && #[trigger] groups[i].0 == key;
        assert(f(groups[i]) is Some);
    }
}

/// Each group is found by its key.
pub proof fn lemma_group_at<V>(groups: Groups<V>, i: int)
    requires
        0 <= i < groups.len(),
        ascending(groups),
    ensures
        group(groups, groups[i].0) == Some(groups[i].1),
    decreases groups.len(),
{
    let key = groups[i].0;
    let front = groups.drop_last();
    if i < groups.len() - 1 {
        assert(front[i] == groups[i]);
        assert forall|a: int, b: int| 0 <= a < b < front.len() implies text::precedes(
            #[trigger] front[a].0,
            #[trigger] front[b].0,
        ) by {
            assert(text::precedes(groups[a].0, groups[b].0));
        }
        lemma_group_at(front, i);
    } else {
        lemma_group(front, key);
        if group(front, key) is Some {
            let j = choose|j: int| 0 <= j < front.len() && #[trigger] front[j].0 == key;
            assert(text::precedes(groups[j].0, groups[i].0));
            text::lemma_precedes_irreflexive(key);
        }
    }
}

impl<T: View> TypeMap<T> {
    /// The keys stand in order, and none occurs twice.
    pub open spec fn wf(&self) -> bool {
        ascending(self@)
    }

    /// The map without a key.
    pub fn new() -> (r: TypeMap<T>)
        ensures
            r.wf(),
            r@ == Seq::<(Seq<char>, Seq<T::V>)>::empty(),
    {
        let r = TypeMap { groups: Vec::new() };
        assert(r@ =~= Seq::<(Seq<char>, Seq<T::V>)>::empty());
        r
    }

    /// How many keys there are.
    pub fn len(&self) -> (r: usize)
        ensures
            r == self@.len(),
    {
        self.groups.len()
    }

    /// The key at a place in the order.
    pub fn key(&self, i: usize) -> (r: &EntityType)
        requires
            i < self@.len(),
        ensures
            r@ == self@[i as int].0,
    {
        &self.groups[i].0
    }

    /// The list at a place in the order.
    pub fn items(&self, i: usize) -> (r: &Vec<T>)
        requires
            i < self@.len(),
        ensures
            seqs::deep(r@) == self@[i as int].1,
    {
        &self.groups[i].1
    }

    /// The list at a key.
    pub fn get(&self, key: &EntityType) -> (r: Option<&Vec<T>>)
        ensures
            r is Some <==> group(self@, key@) is Some,
            r matches Some(items) ==> group(self@, key@) == Some(seqs::deep(items@)),
    {
        let mut i: usize = 0;
        while i < self.groups.len()
            invariant
                i <= self.groups@.len(),
                self@.len() == self.groups@.len(),
                seqs::find_map(self@.take(i as int), group_named(key@)) is None,
            decreases self.groups@.len() - i,
        {
            proof {
                seqs::lemma_find_map_step(self@, group_named(key@), i as int);
            }
            if same(self.groups[i].0.as_str(), key.as_str()) {
                return Some(&self.groups[i].1);
            }
            i += 1;
        }
        proof {
            seqs::lemma_take_all(self@);
        }
        None
    }

    /// The place of a key: where it is, or else where it belongs.
    fn place(&self, key: &EntityType) -> (r: (usize, bool))
        requires
            self.wf(),
        ensures
            r.0 <= self@.len(),
            r.1 ==> r.0 < self@.len() && self@[r.0 as int].0 == key@,
            forall|i: int| 0 <= i < r.0 ==> text::precedes(#[trigger] self@[i].0, key@),
            !r.1 ==> forall|i: int| r.0 <= i < self@.len() ==> text::precedes(key@, #[trigger] self@[i].0),
    {
        let mut p: usize = 0;
        while p < self.groups.len() && comes_before(self.groups[p].0.as_str(), key.as_str())
            invariant
                p <= self.groups@.len(),
                self@.len() == self.groups@.len(),
                forall|i: int| 0 <= i < p ==> text::precedes(#[trigger] self@[i].0, key@),
            decreases self.groups@.len() - p,
        {
            assert(self@[p as int].0 == self.groups@[p as int].0@);
            p += 1;
        }
        if p < self.groups.len() {
            assert(self@[p as int].0 == self.groups@[p as int].0@);
            if same(self.groups[p].0.as_str(), key.as_str()) {
                return (p, true);
            }
            proof {
                text::lemma_precedes_total(self@[p as int].0, key@);
                assert forall|i: int| p <= i < self@.len() implies text::precedes(
                    key@,
                    #[trigger] self@[i].0,
                ) by {
                    if i > p {
                        assert(text::precedes(self@[p as int].0, self@[i].0));
                        text::lemma_precedes_transitive(key@, self@[p as int].0, self@[i].0);
                    }
                }
            }
        }
        (p, false)
    }

    /// Makes sure that there is a list at the key.
    pub fn declare(&mut self, key: EntityType)
        requires
            old(self).wf(),
        ensures
            final(self).wf(),
            forall|k: Seq<char>| #[trigger]
                group(final(self)@, k) == if k == key@ {
                    Some(group_or_empty(old(self)@, k))
                } else {
                    group(old(self)@, k)
                },
    {
        let ghost before = self@;
        let place = self.place(&key);
        if place.1 {
            proof {
                lemma_group_at(before, place.0 as int);
            }
        } else {
            let ghost k0 = key@;
            let list: Vec<T> = Vec::new();
            assert(seqs::deep(list@) =~= Seq::<T::V>::empty());
            self.groups.insert(place.0, (key, list));
            proof {
                assert(self@ =~= before.insert(
                    place.0 as int,
                    (k0, Seq::<T::V>::empty()),
                ));
                assert forall|k: Seq<char>| #[trigger]
                    group(self@, k) == if k == k0 {
                        Some(group_or_empty(before, k))
                    } else {
                        group(before, k)
                    } by {
                    lemma_insert(before, place.0 as int, k0, Seq::<T::V>::empty(), k);
                    if k == k0 {
                        lemma_absent(before, place.0 as int, k0);
                    }
                }
                lemma_insert(before, place.0 as int, k0, Seq::<T::V>::empty(), k0);
            }
        }
    }

    /// Puts an item at the end of the list at the key.
    pub fn push(&mut self, key: EntityType, item: T)
        requires
            old(self).wf(),
        ensures
            final(self).wf(),
            forall|k: Seq<char>| #[trigger]
                group(final(self)@, k) == if k == key@ {
                    Some(group_or_empty(old(self)@, k).push(item@))
                } else {
                    group(old(self)@, k)
                },
    {
        let ghost before = self@;
        let ghost k0 = key@;
        let ghost x = item@;
        let place = self.place(&key);
        if place.1 {
            let ghost items = before[place.0 as int].1.push(x);
            self.groups[place.0].1.push(item);
            proof {
                assert(self@ =~= before.update(place.0 as int, (k0, items)));
                lemma_group_at(before, place.0 as int);
                assert forall|k: Seq<char>| #[trigger]
                    group(self@, k) == if k == k0 {
                        Some(group_or_empty(before, k).push(x))
                    } else {
                        group(before, k)
                    } by {
                    lemma_update(before, place.0 as int, items, k);
                }
                lemma_update(before, place.0 as int, items, k0);
            }
        } else {
            let mut list: Vec<T> = Vec::new();
            list.push(item);
            assert(seqs::deep(list@) =~= Seq::<T::V>::empty().push(x));
            self.groups.insert(place.0, (key, list));
            proof {
                let items = Seq::<T::V>::empty().push(x);
                assert(self@ =~= before.insert(place.0 as int, (k0, items)));
                assert forall|k: Seq<char>| #[trigger]
                    group(self@, k) == if k == k0 {
                        Some(group_or_empty(before, k).push(x))
                    } else {
                        group(before, k)
                    } by {
                    lemma_insert(before, place.0 as int, k0, items, k);
                    if k == k0 {
                        lemma_absent(before, place.0 as int, k0);
                    }
                }
                lemma_insert(before, place.0 as int, k0, items, k0);
            }
        }
    }
}

/// A key that belongs between two groups is the key of none.
proof fn lemma_absent<V>(groups: Groups<V>, p: int, key: Seq<char>)
    requires
        0 <= p <= groups.len(),
        forall|i: int| 0 <= i < p ==> text::precedes(#[trigger] groups[i].0, key),
        forall|i: int| p <= i < groups.len() ==> text::precedes(key, #[trigger] groups[i].0),
    ensures
        group(groups, key) is None,
{
    lemma_group(groups, key);
    text::lemma_precedes_irreflexive(key);
}

/// Without its last group a map lacks that key alone.
proof fn lemma_drop_last<V>(groups: Groups<V>, key: Seq<char>)
    requires
        groups.len() > 0,
        ascending(groups),
    ensures
        ascending(groups.drop_last()),
        group(groups.drop_last(), key) == if key == groups.last().0 {
            None
        } else {
            group(groups, key)
        },
{
    let front = groups.drop_last();
    assert forall|i: int, j: int| 0 <= i < j < front.len() implies text::precedes(
        #[trigger] front[i].0,
        #[trigger] front[j].0,
    ) by {
        assert(text::precedes(groups[i].0, groups[j].0));
    }
    if key == groups.last().0 {
        lemma_group(front, key);
        if group(front, key) is Some {
            let j = choose|j: int| 0 <= j < front.len() && #[trigger] front[j].0 == key;
            assert(text::precedes(groups[j].0, groups[groups.len() - 1].0));
            text::lemma_precedes_irreflexive(key);
        }
    }
}

/// A key of an ordered map is its last one or stands before that.
proof fn lemma_last_key<V>(groups: Groups<V>, key: Seq<char>)
    requires
        ascending(groups),
        group(groups, key) is Some,
    ensures
        groups.len() > 0,
        key == groups.last().0 || text::precedes(key, groups.last().0),
{
    lemma_group(groups, key);
    let i = choose|i: int| 0 <= i < groups.len() && #[trigger] groups[i].0 == key;
    if i < groups.len() - 1 {
        assert(text::precedes(groups[i].0, groups[groups.len() - 1].0));
    }
}

/// Ordered maps with the same lists at all keys are the same.
pub proof fn lemma_determined<V>(a: Groups<V>, b: Groups<V>)
    requires
        ascending(a),
        ascending(b),
        forall|key: Seq<char>| #[trigger] group(a, key) == group(b, key),
    ensures
        a == b,
    decreases a.len(),
{
    if a.len() == 0 {
        if b.len() > 0 {
            lemma_group_at(b, 0);
            assert(group(a, b[0].0) == group(b, b[0].0));
        }
        assert(a =~= b);
    } else {
        let last = a.len() - 1;
        lemma_group_at(a, last);
        assert(group(a, a[last].0) == group(b, a[last].0));
        lemma_last_key(b, a[last].0);
        let end = b.len() - 1;
        lemma_group_at(b, end);
        assert(group(a, b[end].0) == group(b, b[end].0));
        lemma_last_key(a, b[end].0);
        if a[last].0 != b[end].0 {
            text::lemma_precedes_transitive(a[last].0, b[end].0, a[last].0);
            text::lemma_precedes_irreflexive(a[last].0);
        }
        assert forall|key: Seq<char>| #[trigger] group(a.drop_last(), key) == group(
            b.drop_last(),
            key,
        ) by {
            lemma_drop_last(a, key);
            lemma_drop_last(b, key);
            assert(group(a, key) == group(b, key));
        }
        lemma_drop_last(a, a[last].0);
        lemma_drop_last(b, b[end].0);
        lemma_determined(a.drop_last(), b.drop_last());
        assert(a =~= a.drop_last().push(a[last]));
        assert(b =~= b.drop_last().push(b[end]));
    }
}

} // verus!
