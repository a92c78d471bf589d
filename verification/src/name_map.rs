//! A map keyed by name that keeps its entries in lexicographic order.
use vstd::prelude::*;

use crate::text;

verus! {

/// The names are in strictly ascending lexicographic order.
pub open spec fn ascending(names: Seq<Seq<char>>) -> bool {
    forall|i: int, j: int| 0 <= i < j < names.len() ==> #[trigger] text::precedes(names[i], names[j])
}

/// `names` lists the keys of `map` in ascending order.
pub open spec fn lists_keys<A>(names: Seq<Seq<char>>, map: Map<Seq<char>, A>) -> bool {
    &&& ascending(names)
    &&& forall|k: Seq<char>| #[trigger] names.contains(k) <==> map.dom().contains(k)
}

/// The keys of a finite map in ascending order.
pub open spec fn ordered_keys<A>(map: Map<Seq<char>, A>) -> Seq<Seq<char>> {
    choose|names: Seq<Seq<char>>| lists_keys(names, map)
}

/// Two ascending lists with the same members are the same list.
pub proof fn lemma_ascending_unique(s: Seq<Seq<char>>, t: Seq<Seq<char>>)
    requires
        ascending(s),
        ascending(t),
        forall|k: Seq<char>| #[trigger] s.contains(k) <==> t.contains(k),
    ensures
        s == t,
    decreases s.len(),
{
    if s.len() == 0 {
        if t.len() > 0 {
            assert(t.contains(t[0]));
            assert(s.contains(t[0]));
        }
        assert(s =~= t);
    } else {
        assert(s.contains(s[0]));
        assert(t.contains(s[0]));
        let j = choose|j: int| 0 <= j < t.len() && t[j] == s[0];
        assert(t.contains(t[0]));
        assert(s.contains(t[0]));
        let i = choose|i: int| 0 <= i < s.len() && s[i] == t[0];
        if i > 0 && j > 0 {
            assert(text::precedes(s[0], s[i]));
            assert(text::precedes(t[0], t[j]));
            text::lemma_precedes_transitive(s[0], t[0], s[0]);
            text::lemma_precedes_irreflexive(s[0]);
        }
        assert(s[0] == t[0]);
        let s1 = s.drop_first();
        let t1 = t.drop_first();
        assert forall|k: Seq<char>| #[trigger] s1.contains(k) <==> t1.contains(k) by {
            lemma_tail_membership(s, k);
            lemma_tail_membership(t, k);
        }
        assert forall|i: int, j: int| 0 <= i < j < s1.len() implies #[trigger] text::precedes(s1[i], s1[j]) by {
            assert(text::precedes(s[i + 1], s[j + 1]));
        }
        assert forall|i: int, j: int| 0 <= i < j < t1.len() implies #[trigger] text::precedes(t1[i], t1[j]) by {
            assert(text::precedes(t[i + 1], t[j + 1]));
        }
        lemma_ascending_unique(s1, t1);
        assert(s =~= seq![s[0]] + s1);
        assert(t =~= seq![t[0]] + t1);
    }
}

/// The tail of an ascending list holds every member but the first.
proof fn lemma_tail_membership(s: Seq<Seq<char>>, k: Seq<char>)
    requires
        ascending(s),
        s.len() > 0,
    ensures
        s.drop_first().contains(k) <==> s.contains(k) && k != s[0],
{
    let tail = s.drop_first();
    if tail.contains(k) {
        let i = choose|i: int| 0 <= i < tail.len() && tail[i] == k;
        assert(s[i + 1] == k);
        assert(text::precedes(s[0], s[i + 1]));
        text::lemma_precedes_irreflexive(k);
    }
    if s.contains(k) && k != s[0] {
        let i = choose|i: int| 0 <= i < s.len() && s[i] == k;
        assert(tail[i - 1] == k);
    }
}

/// The ascending list of a map's keys is its `ordered_keys`.
pub proof fn lemma_ordered_keys<A>(names: Seq<Seq<char>>, map: Map<Seq<char>, A>)
    requires
        lists_keys(names, map),
    ensures
        ordered_keys(map) == names,
{
    let chosen = ordered_keys(map);
    assert(lists_keys(chosen, map));
    assert forall|k: Seq<char>| #[trigger] chosen.contains(k) <==> names.contains(k) by {}
    lemma_ascending_unique(chosen, names);
}

/// An ascending list has no repeated member.
pub proof fn lemma_ascending_distinct(names: Seq<Seq<char>>)
    requires
        ascending(names),
    ensures
        names.no_duplicates(),
{
    assert forall|i: int, j: int| 0 <= i < names.len() && 0 <= j < names.len() && i != j implies names[i]
        != names[j] by {
        if i < j {
            assert(text::precedes(names[i], names[j]));
        } else {
            assert(text::precedes(names[j], names[i]));
        }
        text::lemma_precedes_irreflexive(names[i]);
    }
}

/// Every key of a finite map is listed by `ordered_keys`, and no other.
pub proof fn lemma_ordered_keys_of_finite<A>(map: Map<Seq<char>, A>)
    requires
        map.dom().finite(),
    ensures
        lists_keys(ordered_keys(map), map),
        ordered_keys(map).len() == map.dom().len(),
    decreases map.dom().len(),
{
    lemma_some_listing(map.dom());
    let names = choose|names: Seq<Seq<char>>| ascending(names) && names.to_set() == map.dom();
    assert forall|k: Seq<char>| #[trigger] names.contains(k) <==> map.dom().contains(k) by {
        assert(names.to_set().contains(k) <==> names.contains(k));
    }
    lemma_ordered_keys(names, map);
    lemma_ascending_distinct(names);
    names.unique_seq_to_set();
}

/// A finite set of names can be listed in ascending order.
proof fn lemma_some_listing(set: Set<Seq<char>>)
    requires
        set.finite(),
    ensures
        exists|names: Seq<Seq<char>>| ascending(names) && #[trigger] names.to_set() == set,
    decreases set.len(),
{
    if set.len() == 0 {
        let names: Seq<Seq<char>> = seq![];
        assert(names.to_set() =~= set);
    } else {
        let k = set.choose();
        lemma_some_listing(set.remove(k));
        let rest = choose|names: Seq<Seq<char>>|
            ascending(names) && #[trigger] names.to_set() == set.remove(k);
        assert(!rest.contains(k)) by {
            assert(rest.to_set().contains(k) <==> rest.contains(k));
        }
        lemma_insertion_point(rest, k, 0);
        let p = choose|p: int| insertion_point(rest, k, p);
        let names = rest.insert(p, k);
        lemma_insert_keeps_order(rest, k, p);
        assert(names.to_set() =~= set) by {
            assert forall|x: Seq<char>| names.to_set().contains(x) <==> set.contains(x) by {
                lemma_insert_membership(rest, k, p, x);
                assert(rest.to_set().contains(x) <==> rest.contains(x));
            }
        }
    }
}

/// Everything before `p` precedes `k`, and `k` precedes everything from `p` on.
pub open spec fn insertion_point(names: Seq<Seq<char>>, k: Seq<char>, p: int) -> bool {
    &&& 0 <= p <= names.len()
    &&& forall|i: int| 0 <= i < p ==> #[trigger] text::precedes(names[i], k)
    &&& forall|i: int| p <= i < names.len() ==> #[trigger] text::precedes(k, names[i])
}

proof fn lemma_insertion_point(names: Seq<Seq<char>>, k: Seq<char>, p: int)
    requires
        ascending(names),
        !names.contains(k),
        0 <= p <= names.len(),
        forall|i: int| 0 <= i < p ==> #[trigger] text::precedes(names[i], k),
    ensures
        exists|q: int| insertion_point(names, k, q),
    decreases names.len() - p,
{
    if p == names.len() {
        assert(insertion_point(names, k, p));
    } else {
        text::lemma_precedes_total(names[p], k);
        if text::precedes(names[p], k) {
            lemma_insertion_point(names, k, p + 1);
        } else {
            lemma_suffix_above(names, k, p);
            assert(insertion_point(names, k, p));
        }
    }
}

/// What precedes one name of an ascending list precedes all later ones.
proof fn lemma_suffix_above(names: Seq<Seq<char>>, k: Seq<char>, p: int)
    requires
        ascending(names),
        0 <= p < names.len(),
        text::precedes(k, names[p]),
    ensures
        forall|i: int| p <= i < names.len() ==> #[trigger] text::precedes(k, names[i]),
{
    assert forall|i: int| p <= i < names.len() implies #[trigger] text::precedes(k, names[i]) by {
        if p < i {
            assert(text::precedes(names[p], names[i]));
            text::lemma_precedes_transitive(k, names[p], names[i]);
        }
    }
}

proof fn lemma_insert_keeps_order(names: Seq<Seq<char>>, k: Seq<char>, p: int)
    requires
        ascending(names),
        insertion_point(names, k, p),
    ensures
        ascending(names.insert(p, k)),
{
    let grown = names.insert(p, k);
    assert forall|i: int, j: int| 0 <= i < j < grown.len() implies #[trigger] text::precedes(
        grown[i],
        grown[j],
    ) by {
        if i < p && j < p {
            assert(text::precedes(names[i], names[j]));
        } else if i < p && j == p {
            assert(text::precedes(names[i], k));
        } else if i < p {
            assert(text::precedes(names[i], names[j - 1]));
        } else if i == p {
            assert(text::precedes(k, names[j - 1]));
        } else {
            assert(text::precedes(names[i - 1], names[j - 1]));
        }
    }
}

proof fn lemma_insert_membership(names: Seq<Seq<char>>, k: Seq<char>, p: int, x: Seq<char>)
    requires
        0 <= p <= names.len(),
    ensures
        names.insert(p, k).contains(x) <==> names.contains(x) || x == k,
{
    let grown = names.insert(p, k);
    assert(grown[p] == k);
    if names.contains(x) {
        let i = choose|i: int| 0 <= i < names.len() && names[i] == x;
        if i < p {
            assert(grown[i] == x);
        } else {
            assert(grown[i + 1] == x);
        }
    }
    if grown.contains(x) && x != k {
        let i = choose|i: int| 0 <= i < grown.len() && grown[i] == x;
        if i < p {
            assert(names[i] == x);
        } else {
            assert(names[i - 1] == x);
        }
    }
}

/// Values that can be copied without changing what they stand for.
pub trait Replicate: View + Sized {
    fn replicate(&self) -> (r: Self)
        ensures
            r@ == self@,
    ;
}

impl Replicate for String {
    fn replicate(&self) -> (r: Self) {
        self.clone()
    }
}

/// A map from names to values. Entries are kept in ascending order of their
/// names, and no name occurs twice.
#[derive(Debug, PartialEq, Eq)]
pub struct NameMap<A> {
    entries: Vec<(String, A)>,
}

/// The names of a list of entries.
pub closed spec fn entry_names<A>(entries: Seq<(String, A)>) -> Seq<Seq<char>> {
    entries.map_values(|e: (String, A)| e.0@)
}

/// The map that a list of entries stands for.
pub closed spec fn entry_map<A: View>(entries: Seq<(String, A)>) -> Map<Seq<char>, A::V> {
    Map::new(
        |k: Seq<char>| entry_names(entries).contains(k),
        |k: Seq<char>| entries[entry_names(entries).index_of(k)].1@,
    )
}

impl<A: View> View for NameMap<A> {
    type V = Map<Seq<char>, A::V>;

    closed spec fn view(&self) -> Map<Seq<char>, A::V> {
        entry_map(self.entries@)
    }
}

proof fn lemma_entry_value<A: View>(entries: Seq<(String, A)>, i: int)
    requires
        ascending(entry_names(entries)),
        0 <= i < entries.len(),
    ensures
        entry_map(entries).dom().contains(entries[i].0@),
        entry_map(entries)[entries[i].0@] == entries[i].1@,
{
    let names = entry_names(entries);
    assert(names[i] == entries[i].0@);
    lemma_ascending_distinct(names);
    assert(names.contains(names[i]));
    assert(names.index_of(names[i]) == i);
}

proof fn lemma_entries_listed<A: View>(entries: Seq<(String, A)>)
    requires
        ascending(entry_names(entries)),
    ensures
        ordered_keys(entry_map(entries)) == entry_names(entries),
        entry_map(entries).dom().finite(),
        entry_map(entries).dom().len() == entries.len(),
{
    let names = entry_names(entries);
    let map = entry_map(entries);
    assert(lists_keys(names, map));
    lemma_ordered_keys(names, map);
    assert(map.dom() =~= names.to_set());
    lemma_ascending_distinct(names);
    names.unique_seq_to_set();
    vstd::seq_lib::seq_to_set_is_finite(names);
}

impl<A> NameMap<A> {
    #[verifier::type_invariant]
    closed spec fn well_ordered(self) -> bool {
        ascending(entry_names(self.entries@))
    }
}

impl<A: View> NameMap<A> {
    /// An empty map.
    pub fn new() -> (r: Self)
        ensures
            r@ == Map::<Seq<char>, A::V>::empty(),
    {
        let r = NameMap { entries: Vec::new() };
        assert(r@ =~= Map::<Seq<char>, A::V>::empty());
        r
    }

    /// The number of entries.
    pub fn len(&self) -> (r: usize)
        ensures
            r == ordered_keys(self@).len(),
            r == self@.dom().len(),
            self@.dom().finite(),
            lists_keys(ordered_keys(self@), self@),
    {
        proof {
            use_type_invariant(self);
            lemma_entries_listed(self.entries@);
            lemma_ordered_keys_of_finite(self@);
        }
        self.entries.len()
    }

    /// Tells whether the map has no entry.
    pub fn is_empty(&self) -> (r: bool)
        ensures
            r == (self@.dom().len() == 0),
            r == (self@ == Map::<Seq<char>, A::V>::empty()),
    {
        let r = self.len() == 0;
        proof {
            if r {
                assert(self@ =~= Map::<Seq<char>, A::V>::empty());
            }
        }
        r
    }

    /// The name at position `i` of the ascending order.
    pub fn name_at(&self, i: usize) -> (r: &String)
        requires
            i < ordered_keys(self@).len(),
        ensures
            r@ == ordered_keys(self@)[i as int],
            self@.dom().contains(r@),
    {
        proof {
            use_type_invariant(self);
            lemma_entries_listed(self.entries@);
            lemma_entry_value(self.entries@, i as int);
        }
        &self.entries[i].0
    }

    /// The value at position `i` of the ascending order of names.
    pub fn value_at(&self, i: usize) -> (r: &A)
        requires
            i < ordered_keys(self@).len(),
        ensures
            r@ == self@[ordered_keys(self@)[i as int]],
    {
        proof {
            use_type_invariant(self);
            lemma_entries_listed(self.entries@);
            lemma_entry_value(self.entries@, i as int);
        }
        &self.entries[i].1
    }

    /// The value stored under `name`, if there is one.
    pub fn get(&self, name: &str) -> (r: Option<&A>)
        ensures
            r is Some <==> self@.dom().contains(name@),
            r matches Some(value) ==> value@ == self@[name@],
    {
        proof {
            use_type_invariant(self);
        }
        for i in 0..self.entries.len()
            invariant
                ascending(entry_names(self.entries@)),
                forall|j: int| 0 <= j < i ==> self.entries@[j].0@ != name@,
        {
            if text::text_eq(self.entries[i].0.as_str(), name) {
                proof {
                    lemma_entry_value(self.entries@, i as int);
                }
                return Some(&self.entries[i].1);
            }
        }
        proof {
            assert(!entry_names(self.entries@).contains(name@));
        }
        None
    }

    /// Tells whether a value is stored under `name`.
    pub fn contains_key(&self, name: &str) -> (r: bool)
        ensures
            r == self@.dom().contains(name@),
    {
        self.get(name).is_some()
    }

    /// Stores `value` under `name`, in place of any value stored there before.
    pub fn insert(&mut self, name: String, value: A)
        ensures
            final(self)@ == old(self)@.insert(name@, value@),
    {
        proof {
            use_type_invariant(&*self);
        }
        let ghost before = self.entries@;
        let ghost key = name@;
        let mut entries: Vec<(String, A)> = Vec::new();
        std::mem::swap(&mut entries, &mut self.entries);
        let mut p: usize = 0;
        while p < entries.len() && text::text_precedes(entries[p].0.as_str(), name.as_str())
            invariant
                entries@ == before,
                ascending(entry_names(before)),
                key == name@,
                p <= before.len(),
                forall|j: int| 0 <= j < p ==> #[trigger] text::precedes(entry_names(before)[j], key),
            decreases before.len() - p,
        {
            p += 1;
        }
        if p < entries.len() && text::text_eq(entries[p].0.as_str(), name.as_str()) {
            entries.set(p, (name, value));
            proof {
                assert(entry_names(entries@) =~= entry_names(before));
            }
        } else {
            proof {
                let names = entry_names(before);
                if p < before.len() {
                    text::lemma_precedes_total(names[p as int], key);
                    lemma_suffix_above(names, key, p as int);
                }
                assert(insertion_point(names, key, p as int));
                lemma_insert_keeps_order(names, key, p as int);
            }
            entries.insert(p, (name, value));
            proof {
                assert(entry_names(entries@) =~= entry_names(before).insert(p as int, key));
            }
        }
        proof {
            lemma_entry_updated(before, entries@, p as int, key);
        }
        self.entries = entries;
    }

    /// A map with the same names and equal values.
    pub fn replicate_all(&self) -> (r: Self) where A: Replicate
        ensures
            r@ == self@,
    {
        proof {
            use_type_invariant(self);
        }
        let mut entries: Vec<(String, A)> = Vec::new();
        for i in 0..self.entries.len()
            invariant
                entries@.len() == i,
                forall|j: int|
                    #![trigger entries@[j]]
                    0 <= j < i ==> entries@[j].0@ == self.entries@[j].0@ && entries@[j].1@
                        == self.entries@[j].1@,
        {
            entries.push((self.entries[i].0.clone(), self.entries[i].1.replicate()));
        }
        proof {
            assert(entry_names(entries@) =~= entry_names(self.entries@));
            assert forall|k: Seq<char>| entry_map(entries@).dom().contains(k) implies entry_map(
                entries@,
            )[k] == entry_map(self.entries@)[k] by {
                let i = entry_names(entries@).index_of(k);
                assert(entries@[i].0@ == self.entries@[i].0@);
            }
            assert(entry_map(entries@) =~= entry_map(self.entries@));
        }
        NameMap { entries }
    }
}

/// Replacing or inserting the entry at its place updates the map at its name.
proof fn lemma_entry_updated<A: View>(
    before: Seq<(String, A)>,
    after: Seq<(String, A)>,
    p: int,
    key: Seq<char>,
)
    requires
        ascending(entry_names(before)),
        ascending(entry_names(after)),
        0 <= p < after.len(),
        after[p].0@ == key,
        ({
            ||| after == before.insert(p, after[p]) && p <= before.len()
            ||| p < before.len() && before[p].0@ == key && after == before.update(p, after[p])
        }),
    ensures
        entry_map(after) == entry_map(before).insert(key, after[p].1@),
{
    let old_names = entry_names(before);
    let new_names = entry_names(after);
    let old_map = entry_map(before);
    let new_map = entry_map(after);
    lemma_entry_value(after, p);
    assert forall|k: Seq<char>| #[trigger] new_map.dom().contains(k) <==> old_map.insert(
        key,
        after[p].1@,
    ).dom().contains(k) by {
        if after == before.insert(p, after[p]) && p <= before.len() {
            assert(new_names =~= old_names.insert(p, key));
            lemma_insert_membership(old_names, key, p, k);
        } else {
            assert(new_names =~= old_names);
            assert(old_names[p] == key);
        }
    }
    assert forall|k: Seq<char>| #[trigger] new_map.dom().contains(k) && k != key implies new_map[k]
        == old_map[k] by {
        let i = new_names.index_of(k);
        assert(new_names[i] == k);
        lemma_entry_value(after, i);
        if after == before.insert(p, after[p]) && p <= before.len() {
            let j = if i < p {
                i
            } else {
                i - 1
            };
            assert(before[j] == after[i]);
            lemma_entry_value(before, j);
        } else {
            assert(before[i] == after[i]);
            lemma_entry_value(before, i);
        }
    }
    assert(new_map =~= old_map.insert(key, after[p].1@));
}

impl<A: Replicate> Replicate for NameMap<A> {
    fn replicate(&self) -> (r: Self) {
        self.replicate_all()
    }
}

} // verus!
