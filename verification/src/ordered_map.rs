//! An insertion-ordered map keyed by text.

use vstd::prelude::*;
use vstd::std_specs::cmp::PartialEqSpec;

verus! {

/// True when no key occurs twice in `entries`.
pub open spec fn distinct_keys<V>(entries: Seq<(Seq<char>, V)>) -> bool {
    forall|i: int, j: int|
        0 <= i < j < entries.len() ==> (#[trigger] entries[i]).0 != (#[trigger] entries[j]).0
}

/// The keys of `entries`, in order.
pub open spec fn keys_of<V>(entries: Seq<(Seq<char>, V)>) -> Seq<Seq<char>> {
    Seq::new(entries.len(), |i: int| entries[i].0)
}

/// The position of `key` in `entries`, if it occurs.
pub open spec fn index_of<V>(entries: Seq<(Seq<char>, V)>, key: Seq<char>) -> Option<int> {
    if exists|i: int| 0 <= i < entries.len() && (#[trigger] entries[i]).0 == key {
        Some(choose|i: int| 0 <= i < entries.len() && (#[trigger] entries[i]).0 == key)
    } else {
        None
    }
}

/// The value stored under `key` in `entries`, if any.
pub open spec fn lookup<V>(entries: Seq<(Seq<char>, V)>, key: Seq<char>) -> Option<V> {
    match index_of(entries, key) {
        Some(i) => Some(entries[i].1),
        None => None,
    }
}

/// `entries` read as a mathematical map.
pub open spec fn entries_map<V>(entries: Seq<(Seq<char>, V)>) -> Map<Seq<char>, V> {
    Map::new(
        |k: Seq<char>| index_of(entries, k) is Some,
        |k: Seq<char>| entries[index_of(entries, k).unwrap()].1,
    )
}

/// `entries` after storing `value` under `key`: an existing entry keeps its
/// place and takes the new value, a new key goes to the end.
pub open spec fn upsert<V>(entries: Seq<(Seq<char>, V)>, key: Seq<char>, value: V) -> Seq<
    (Seq<char>, V),
> {
    match index_of(entries, key) {
        Some(i) => entries.update(i, (key, value)),
        None => entries.push((key, value)),
    }
}

/// Where keys are distinct, `index_of` finds exactly the position that holds
/// the key.
pub proof fn lemma_index_of<V>(entries: Seq<(Seq<char>, V)>, i: int)
    requires
        distinct_keys(entries),
        0 <= i < entries.len(),
    ensures
        index_of(entries, entries[i].0) == Some(i),
        lookup(entries, entries[i].0) == Some(entries[i].1),
{
    let j = choose|j: int| 0 <= j < entries.len() && (#[trigger] entries[j]).0 == entries[i].0;
    assert(entries[j].0 == entries[i].0);
    if j < i {
        assert(entries[j].0 != entries[i].0);
    } else if i < j {
        assert(entries[i].0 != entries[j].0);
    }
}

/// Storing a value keeps the keys distinct, makes the key map to the value
/// and leaves every other key as it was.
pub proof fn lemma_upsert<V>(entries: Seq<(Seq<char>, V)>, key: Seq<char>, value: V)
    requires
        distinct_keys(entries),
    ensures
        distinct_keys(upsert(entries, key, value)),
        lookup(upsert(entries, key, value), key) == Some(value),
        forall|k: Seq<char>|
            k != key ==> #[trigger] lookup(upsert(entries, key, value), k) == lookup(entries, k),
        entries_map(upsert(entries, key, value)) == entries_map(entries).insert(key, value),
{
    let after = upsert(entries, key, value);
    let at = match index_of(entries, key) {
        Some(i) => i,
        None => entries.len() as int,
    };
    assert(0 <= at < after.len() && after[at] == (key, value));
    assert forall|i: int| 0 <= i < after.len() && i != at implies #[trigger] after[i]
        == entries[i] && entries[i].0 != key by {}
    assert(distinct_keys(after)) by {
        assert forall|i: int, j: int| 0 <= i < j < after.len() implies (#[trigger] after[i]).0 != (
        #[trigger] after[j]).0 by {
            if i != at && j != at {
                assert(entries[i].0 != entries[j].0);
            }
        }
    }
    lemma_index_of(after, at);
    assert forall|k: Seq<char>| k != key implies #[trigger] lookup(after, k) == lookup(
        entries,
        k,
    ) by {
        match index_of(entries, k) {
            Some(i) => {
                assert(after[i] == entries[i]);
                lemma_index_of(after, i);
            },
            None => {
                if index_of(after, k) is Some {
                    let j = index_of(after, k).unwrap();
                    assert(after[j].0 == k);
                    assert(entries[j].0 == k);
                }
            },
        }
    }
    assert(entries_map(after) =~= entries_map(entries).insert(key, value)) by {
        assert forall|k: Seq<char>|
            entries_map(after).dom().contains(k) <==> entries_map(entries).insert(
                key,
                value,
            ).dom().contains(k) by {
            if k != key {
                assert(lookup(after, k) == lookup(entries, k));
            }
        }
        assert forall|k: Seq<char>| #[trigger]
            entries_map(after).dom().contains(k) implies entries_map(after)[k] == entries_map(
            entries,
        ).insert(key, value)[k] by {
            if k != key {
                assert(lookup(after, k) == lookup(entries, k));
            }
        }
    }
}

/// Where keys are distinct, the map of the entries holds each entry, and as
/// many keys as there are entries.
pub proof fn lemma_entries_map<V>(entries: Seq<(Seq<char>, V)>)
    requires
        distinct_keys(entries),
    ensures
        entries_map(entries).dom().finite(),
        entries_map(entries).len() == entries.len(),
        forall|i: int|
            0 <= i < entries.len() ==> entries_map(entries).contains_key(
                (#[trigger] entries[i]).0,
            ) && entries_map(entries)[entries[i].0] == entries[i].1,
        forall|k: Seq<char>| #[trigger]
            entries_map(entries).contains_key(k) ==> lookup(entries, k) == Some(
                entries_map(entries)[k],
            ),
        forall|k: Seq<char>|
            !entries_map(entries).contains_key(k) ==> #[trigger] lookup(entries, k) is None,
    decreases entries.len(),
{
    assert forall|i: int| 0 <= i < entries.len() implies entries_map(entries).contains_key(
        (#[trigger] entries[i]).0,
    ) && entries_map(entries)[entries[i].0] == entries[i].1 by {
        lemma_index_of(entries, i);
    }
    if entries.len() == 0 {
        assert(entries_map(entries) =~= Map::<Seq<char>, V>::empty());
    } else {
        let front = entries.drop_last();
        let last = entries.last();
        assert(distinct_keys(front)) by {
            assert forall|i: int, j: int| 0 <= i < j < front.len() implies (#[trigger] front[i]).0
                != (#[trigger] front[j]).0 by {
                assert(entries[i].0 != entries[j].0);
            }
        }
        assert(index_of(front, last.0) is None) by {
            if index_of(front, last.0) is Some {
                let i = index_of(front, last.0).unwrap();
                assert(front[i].0 == last.0);
                assert(entries[i].0 != entries[entries.len() - 1].0);
            }
        }
        assert(upsert(front, last.0, last.1) =~= entries);
        lemma_upsert(front, last.0, last.1);
        lemma_entries_map(front);
        assert(!entries_map(front).contains_key(last.0));
    }
}

/// A map from text keys to values that remembers the order in which keys were
/// first stored. No key occurs twice.
#[derive(Debug)]
pub struct OrderedMap<V> {
    entries: Vec<(String, V)>,
}

/// Compares two string slices with `str`'s `==`. Trusted: the result is true
/// exactly when the two hold the same characters.
#[verifier::external_body]
fn same_text(a: &str, b: &str) -> (r: bool)
    ensures
        r == (a@ == b@),
{
    a == b
}

impl<V> View for OrderedMap<V> {
    type V = Map<Seq<char>, V>;

    open spec fn view(&self) -> Map<Seq<char>, V> {
        entries_map(self.entries())
    }
}

impl<V> OrderedMap<V> {
    /// The entries in insertion order, each key as its characters.
    pub closed spec fn entries(self) -> Seq<(Seq<char>, V)> {
        Seq::new(self.entries@.len(), |i: int| (self.entries@[i].0@, self.entries@[i].1))
    }

    /// The keys in insertion order.
    pub open spec fn keys(self) -> Seq<Seq<char>> {
        keys_of(self.entries())
    }

    /// The invariant of the type: no key occurs twice.
    #[verifier::type_invariant]
    pub open spec fn wf(self) -> bool {
        distinct_keys(self.entries())
    }

    /// A stored value is structurally smaller than the map that holds it.
    pub proof fn lemma_value_smaller(self, i: int)
        requires
            0 <= i < self.entries().len(),
        ensures
            decreases_to!(self => self.entries()[i].1),
    {
        assert(decreases_to!(self.entries@ => self.entries@[i]));
    }

    /// An empty map.
    pub fn new() -> (r: Self)
        ensures
            r.entries() == Seq::<(Seq<char>, V)>::empty(),
            r@ == Map::<Seq<char>, V>::empty(),
            r.wf(),
    {
        let r = OrderedMap { entries: Vec::new() };
        assert(r.entries() =~= Seq::<(Seq<char>, V)>::empty());
        assert(r@ =~= Map::<Seq<char>, V>::empty());
        r
    }

    /// The number of entries.
    pub fn len(&self) -> (n: usize)
        ensures
            n == self.entries().len(),
            self@.dom().finite(),
            n == self@.len(),
    {
        proof {
            use_type_invariant(self);
            lemma_entries_map(self.entries());
        }
        self.entries.len()
    }

    /// Whether the map holds no entry.
    pub fn is_empty(&self) -> (r: bool)
        ensures
            r == (self.entries().len() == 0),
            r == (self@ == Map::<Seq<char>, V>::empty()),
    {
        proof {
            use_type_invariant(self);
            lemma_entries_map(self.entries());
            if self.entries().len() == 0 {
                assert(self@ =~= Map::<Seq<char>, V>::empty());
            }
        }
        self.entries.len() == 0
    }

    /// The position of `key` among the entries.
    fn position(&self, key: &str) -> (r: Option<usize>)
        ensures
            match r {
                Some(i) => index_of(self.entries(), key@) == Some(i as int) && i
                    < self.entries().len(),
                None => index_of(self.entries(), key@) is None,
            },
    {
        proof {
            use_type_invariant(self);
        }
        let n = self.entries.len();
        let mut i: usize = 0;
        while i < n
            invariant
                n == self.entries@.len(),
                n == self.entries().len(),
                i <= n,
                self.wf(),
                forall|k: int| 0 <= k < i ==> (#[trigger] self.entries()[k]).0 != key@,
            decreases n - i,
        {
            if same_text(self.entries[i].0.as_str(), key) {
                proof {
                    assert(self.entries()[i as int].0 == key@);
                    lemma_index_of(self.entries(), i as int);
                }
                return Some(i);
            }
            i += 1;
        }
        None
    }

    /// The value stored under `key`, or `None` where the key is absent.
    pub fn get(&self, key: &str) -> (r: Option<&V>)
        ensures
            match r {
                Some(v) => lookup(self.entries(), key@) == Some(*v),
                None => lookup(self.entries(), key@) is None,
            },
            r is Some <==> self@.contains_key(key@),
            r matches Some(v) ==> *v == self@[key@],
    {
        match self.position(key) {
            Some(i) => Some(&self.entries[i].1),
            None => None,
        }
    }

    /// Whether `key` is stored.
    pub fn contains_key(&self, key: &str) -> (r: bool)
        ensures
            r == self@.contains_key(key@),
    {
        self.position(key).is_some()
    }

    /// Stores `value` under `key` and returns the value that was stored there
    /// before. A key that is already present keeps its place in the order.
    pub fn insert(&mut self, key: String, value: V) -> (prev: Option<V>)
        ensures
            final(self).entries() == upsert(old(self).entries(), key@, value),
            prev == lookup(old(self).entries(), key@),
            final(self)@ == old(self)@.insert(key@, value),
            prev == (if old(self)@.contains_key(key@) {
                Some(old(self)@[key@])
            } else {
                None
            }),
            final(self).wf(),
    {
        proof {
            use_type_invariant(&*self);
            lemma_upsert(self.entries(), key@, value);
        }
        let ghost before = self.entries();
        let found = self.position(key.as_str());
        let mut entries: Vec<(String, V)> = Vec::new();
        std::mem::swap(&mut self.entries, &mut entries);
        let prev = match found {
            Some(i) => {
                let old_entry = entries.remove(i);
                entries.insert(i, (key, value));
                Some(old_entry.1)
            },
            None => {
                entries.push((key, value));
                None
            },
        };
        proof {
            let after = Seq::new(entries@.len(), |i: int| (entries@[i].0@, entries@[i].1));
            assert(after =~= upsert(before, key@, value));
        }
        self.entries = entries;
        assert(self.entries() =~= upsert(before, key@, value));
        prev
    }

    /// The key at position `i` of the insertion order.
    pub fn key_at(&self, i: usize) -> (r: &String)
        requires
            i < self.entries().len(),
        ensures
            r@ == self.entries()[i as int].0,
    {
        &self.entries[i].0
    }

    /// The value at position `i` of the insertion order.
    pub fn value_at(&self, i: usize) -> (r: &V)
        requires
            i < self.entries().len(),
        ensures
            *r == self.entries()[i as int].1,
    {
        &self.entries[i].1
    }

    /// Gives up the map for its entries, in insertion order.
    pub fn into_entries(self) -> (r: Vec<(String, V)>)
        ensures
            r@.len() == self.entries().len(),
            forall|i: int|
                0 <= i < r@.len() ==> (#[trigger] r@[i]).0@ == self.entries()[i].0 && r@[i].1
                    == self.entries()[i].1,
            distinct_keys(self.entries()),
    {
        proof {
            use_type_invariant(&self);
        }
        self.entries
    }
}

impl<V> Default for OrderedMap<V> {
    /// An empty map.
    fn default() -> (r: Self)
        ensures
            r.entries() == Seq::<(Seq<char>, V)>::empty(),
            r@ == Map::<Seq<char>, V>::empty(),
    {
        OrderedMap::new()
    }
}

/// Two maps are equal when they hold the same keys with equal values,
/// whatever the order of their entries.
impl<V: PartialEq> PartialEq for OrderedMap<V> {
    fn eq(&self, other: &Self) -> (r: bool) {
        let n = self.entries.len();
        if n != other.entries.len() {
            return false;
        }
        let mut i: usize = 0;
        while i < n
            invariant
                n == self.entries@.len(),
                n == self.entries().len(),
                n == other.entries().len(),
                i <= n,
                forall|k: int|
                    0 <= k < i ==> match lookup(other.entries(), (#[trigger] self.entries()[k]).0) {
                        Some(v) => V::obeys_eq_spec() ==> self.entries()[k].1.eq_spec(&v),
                        None => false,
                    },
            decreases n - i,
        {
            let ghost entry = self.entries()[i as int];
            match other.get(self.entries[i].0.as_str()) {
                Some(v) => {
                    if !(self.entries[i].1 == *v) {
                        assert(lookup(other.entries(), entry.0) == Some(*v));
                        return false;
                    }
                },
                None => {
                    assert(lookup(other.entries(), entry.0) is None);
                    return false;
                },
            }
            i += 1;
        }
        true
    }
}

impl<V: PartialEq> vstd::std_specs::cmp::PartialEqSpecImpl for OrderedMap<V> {
    open spec fn obeys_eq_spec() -> bool {
        V::obeys_eq_spec()
    }

    open spec fn eq_spec(&self, other: &Self) -> bool {
        &&& self.entries().len() == other.entries().len()
        &&& forall|i: int|
            0 <= i < self.entries().len() ==> match lookup(
                other.entries(),
                (#[trigger] self.entries()[i]).0,
            ) {
                Some(v) => self.entries()[i].1.eq_spec(&v),
                None => false,
            }
    }
}

} // verus!
