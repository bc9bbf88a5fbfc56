//! A map with string keys.

use vstd::prelude::*;
use vstd::string::*;
use crate::text::str_eq;

verus! {

/// A map from strings to values. Its entries stand in no order that callers can
/// rely on, and no key occurs twice.
#[derive(Debug)]
pub struct StringMap<V> {
    entries: Vec<(String, V)>,
}

impl<V> StringMap<V> {
    /// The keys, in the order of the entries.
    pub closed spec fn keys_seq(&self) -> Seq<Seq<char>> {
        Seq::new(self.entries@.len(), |i: int| self.entries@[i].0@)
    }

    /// The values, in the order of the entries.
    pub closed spec fn stored(&self) -> Seq<V> {
        Seq::new(self.entries@.len(), |i: int| self.entries@[i].1)
    }

    #[verifier::type_invariant]
    spec fn keys_are_distinct(&self) -> bool {
        self.keys_seq().no_duplicates()
    }
}

impl<V: DeepView> StringMap<V> {
    /// Contents of the values, in the order of the entries.
    pub open spec fn values_seq(&self) -> Seq<V::V> {
        Seq::new(self.stored().len(), |i: int| self.stored()[i].deep_view())
    }

    /// How the entries make up the map: no key occurs twice, and each entry's key
    /// leads to its value.
    pub open spec fn entries_make_map(&self) -> bool {
        &&& self.keys_seq().no_duplicates()
        &&& self.keys_seq().len() == self.values_seq().len()
        &&& self.keys_seq().to_set() == self@.dom()
        &&& self@.dom().finite()
        &&& self@.dom().len() == self.keys_seq().len()
        &&& forall|i: int|
            0 <= i < self.keys_seq().len() ==> #[trigger] self@.dom().contains(self.keys_seq()[i])
                && self@[self.keys_seq()[i]] == self.values_seq()[i]
    }
}

impl<V: Clone> Clone for StringMap<V> {
    fn clone(&self) -> (r: Self)
        ensures
            r.keys_seq() == self.keys_seq(),
            r.stored().len() == self.stored().len(),
            forall|i: int|
                0 <= i < self.stored().len() ==> cloned(
                    #[trigger] self.stored()[i],
                    r.stored()[i],
                ),
    {
        proof {
            use_type_invariant(self);
        }
        let mut entries: Vec<(String, V)> = Vec::new();
        let mut i: usize = 0;
        while i < self.entries.len()
            invariant
                i <= self.entries.len(),
                entries.len() == i,
                forall|j: int| 0 <= j < i ==> #[trigger] entries@[j].0@ == self.keys_seq()[j],
                forall|j: int|
                    0 <= j < i ==> cloned(self.entries@[j].1, (#[trigger] entries@[j]).1),
            decreases self.entries.len() - i,
        {
            entries.push((self.entries[i].0.clone(), self.entries[i].1.clone()));
            i += 1;
        }
        let ghost keys = Seq::new(entries@.len(), |j: int| entries@[j].0@);
        proof {
            assert(keys =~= self.keys_seq());
        }
        StringMap { entries }
    }
}

/// The map that a list of keys and a list of values of the same length describe.
pub open spec fn paired<W>(keys: Seq<Seq<char>>, values: Seq<W>) -> Map<Seq<char>, W> {
    Map::new(|k: Seq<char>| keys.contains(k), |k: Seq<char>| values[keys.index_of(k)])
}

impl<V: DeepView> View for StringMap<V> {
    type V = Map<Seq<char>, V::V>;

    open spec fn view(&self) -> Map<Seq<char>, V::V> {
        paired(self.keys_seq(), self.values_seq())
    }
}

impl<V: DeepView> DeepView for StringMap<V> {
    type V = Map<Seq<char>, V::V>;

    open spec fn deep_view(&self) -> Map<Seq<char>, V::V> {
        self@
    }
}

proof fn lemma_index_of<W>(keys: Seq<W>, i: int)
    requires
        keys.no_duplicates(),
        0 <= i < keys.len(),
    ensures
        keys.index_of(keys[i]) == i,
{
    assert(keys.contains(keys[i]));
}

impl<V: DeepView> StringMap<V> {
    /// A map without entries.
    pub fn new() -> (r: Self)
        ensures
            r@ == Map::<Seq<char>, V::V>::empty(),
    {
        let r = StringMap { entries: Vec::new() };
        proof {
            assert(r@ =~= Map::<Seq<char>, V::V>::empty());
        }
        r
    }

    proof fn lemma_entries(self)
        requires
            self.keys_seq().no_duplicates(),
        ensures
            self.entries_make_map(),
    {
        self.keys_seq().unique_seq_to_set();
        vstd::seq_lib::seq_to_set_is_finite(self.keys_seq());
        assert(self.keys_seq().to_set() =~= self@.dom());
        assert forall|i: int| 0 <= i < self.keys_seq().len() implies #[trigger] self@.dom().contains(
            self.keys_seq()[i],
        ) && self@[self.keys_seq()[i]] == self.values_seq()[i] by {
            lemma_index_of(self.keys_seq(), i);
        }
    }

    /// A map has finitely many keys.
    pub proof fn lemma_finite(self)
        ensures
            self@.dom().finite(),
    {
        vstd::seq_lib::seq_to_set_is_finite(self.keys_seq());
        assert(self.keys_seq().to_set() =~= self@.dom());
    }

    /// Number of entries.
    pub fn len(&self) -> (r: usize)
        ensures
            r == self.keys_seq().len(),
            r == self@.dom().len(),
            self.entries_make_map(),
    {
        proof {
            use_type_invariant(self);
            self.lemma_entries();
        }
        self.entries.len()
    }

    /// Key of the entry at position `i`.
    pub fn key_at(&self, i: usize) -> (r: &String)
        requires
            i < self.keys_seq().len(),
        ensures
            r@ == self.keys_seq()[i as int],
            self@.dom().contains(r@),
    {
        proof {
            use_type_invariant(self);
            self.lemma_entries();
        }
        &self.entries[i].0
    }

    /// Value of the entry at position `i`.
    pub fn value_at(&self, i: usize) -> (r: &V)
        requires
            i < self.keys_seq().len(),
        ensures
            r.deep_view() == self.values_seq()[i as int],
            r.deep_view() == self@[self.keys_seq()[i as int]],
    {
        proof {
            use_type_invariant(self);
            self.lemma_entries();
            assert(self@.dom().contains(self.keys_seq()[i as int]));
        }
        &self.entries[i].1
    }

    fn position(&self, key: &str) -> (r: Option<usize>)
        ensures
            match r {
                Some(i) => i < self.keys_seq().len() && self.keys_seq()[i as int] == key@
                    && self@.dom().contains(key@) && self@[key@] == self.values_seq()[i as int],
                None => !self@.dom().contains(key@),
            },
    {
        let mut i: usize = 0;
        while i < self.entries.len()
            invariant
                i <= self.entries.len(),
                forall|j: int| 0 <= j < i ==> self.keys_seq()[j] != key@,
            decreases self.entries.len() - i,
        {
            if str_eq(self.entries[i].0.as_str(), key) {
                proof {
                    use_type_invariant(self);
                    self.lemma_entries();
                    assert(self.keys_seq()[i as int] == key@);
                    assert(self@.dom().contains(self.keys_seq()[i as int]));
                }
                return Some(i);
            }
            i += 1;
        }
        None
    }

    /// Whether `key` has an entry.
    pub fn contains_key(&self, key: &str) -> (r: bool)
        ensures
            r == self@.dom().contains(key@),
    {
        self.position(key).is_some()
    }

    /// The value of `key`.
    pub fn get(&self, key: &str) -> (r: Option<&V>)
        ensures
            match r {
                Some(v) => self@.dom().contains(key@) && v.deep_view() == self@[key@],
                None => !self@.dom().contains(key@),
            },
    {
        match self.position(key) {
            Some(i) => Some(&self.entries[i].1),
            None => None,
        }
    }

    /// Takes the entry of `key` out and hands back its value.
    pub fn remove(&mut self, key: &str) -> (r: Option<V>)
        ensures
            match r {
                Some(v) => old(self)@.dom().contains(key@) && v.deep_view() == old(self)@[key@],
                None => !old(self)@.dom().contains(key@),
            },
            final(self)@ == old(self)@.remove(key@),
    {
        match self.position(key) {
            None => {
                proof {
                    assert(self@ =~= self@.remove(key@));
                }
                None
            },
            Some(i) => {
                proof {
                    use_type_invariant(&*self);
                }
                let ghost before = self.keys_seq();
                let ghost values = self.values_seq();
                let mut entries: Vec<(String, V)> = Vec::new();
                std::mem::swap(&mut entries, &mut self.entries);
                let (_, v) = entries.remove(i);
                let ghost rest = StringMap { entries };
                proof {
                    assert(rest.keys_seq() =~= before.remove(i as int));
                    assert(rest.values_seq() =~= values.remove(i as int));
                    assert(rest.keys_seq().no_duplicates());
                }
                self.entries = entries;
                proof {
                    let after = self.keys_seq();
                    assert(after =~= before.remove(i as int));
                    assert(self.values_seq() =~= values.remove(i as int));
                    assert forall|k: Seq<char>| #[trigger]
                        after.contains(k) == (before.contains(k) && k != key@) by {
                        if after.contains(k) {
                            let j = after.index_of(k);
                            assert(before[if j < i { j } else { j + 1 }] == k);
                        }
                        if before.contains(k) && k != key@ {
                            let j = before.index_of(k);
                            assert(after[if j < i { j } else { j - 1 }] == k);
                        }
                    }
                    assert forall|k: Seq<char>| #[trigger] after.contains(k) implies
                        self.values_seq()[after.index_of(k)] == values[before.index_of(k)] by {
                        let j = after.index_of(k);
                        let b = if j < i { j } else { j + 1 };
                        assert(before[b] == k);
                        lemma_index_of(before, b);
                    }
                    assert(self@ =~= paired(before, values).remove(key@));
                }
                Some(v)
            },
        }
    }

    /// Gives `key` the value `value`, in place of any that it had.
    pub fn insert(&mut self, key: String, value: V) -> (r: Option<V>)
        ensures
            match r {
                Some(v) => old(self)@.dom().contains(key@) && v.deep_view() == old(self)@[key@],
                None => !old(self)@.dom().contains(key@),
            },
            final(self)@ == old(self)@.insert(key@, value.deep_view()),
    {
        let ghost start = self@;
        let r = self.remove(key.as_str());
        assert(self@ == start.remove(key@));
        proof {
            use_type_invariant(&*self);
        }
        let ghost name = key@;
        let ghost new_value = value.deep_view();
        let ghost before = self.keys_seq();
        let ghost values = self.values_seq();
        let mut entries: Vec<(String, V)> = Vec::new();
        std::mem::swap(&mut entries, &mut self.entries);
        entries.push((key, value));
        let ghost more = StringMap { entries };
        proof {
            assert(more.keys_seq() =~= before.push(name));
            assert(!before.contains(name)) by {
                assert(paired(before, values).dom().contains(name) == before.contains(name));
            }
            assert(more.keys_seq().no_duplicates()) by {
                assert forall|a: int, b: int|
                    0 <= a < b < before.push(name).len() implies #[trigger] before.push(name)[a]
                    != #[trigger] before.push(name)[b] by {
                    if b == before.len() {
                        assert(before.contains(before[a]));
                    }
                }
            }
        }
        self.entries = entries;
        proof {
            let after = self.keys_seq();
            assert(after =~= before.push(name));
            assert(self.values_seq() =~= values.push(new_value));
            assert forall|k: Seq<char>| #[trigger]
                after.contains(k) == (before.contains(k) || k == name) by {
                if before.contains(k) {
                    assert(after[before.index_of(k)] == k);
                }
                if k == name {
                    assert(after[before.len() as int] == k);
                }
            }
            assert forall|k: Seq<char>| #[trigger] after.contains(k) implies
                self.values_seq()[after.index_of(k)] == (if k == name {
                new_value
            } else {
                values[before.index_of(k)]
            }) by {
                if k == name {
                    lemma_index_of(after, before.len() as int);
                } else {
                    let b = before.index_of(k);
                    assert(before.contains(k));
                    assert(after[b] == k);
                    lemma_index_of(after, b);
                }
            }
            let middle = paired(before, values);
            assert(self@ =~= middle.insert(name, new_value));
            assert(middle.insert(name, new_value) =~= start.insert(name, new_value));
        }
        r
    }

    /// The keys, each once.
    pub fn keys(&self) -> (r: Vec<String>)
        ensures
            r.deep_view() == self.keys_seq(),
            r.deep_view().no_duplicates(),
            r.deep_view().to_set() == self@.dom(),
    {
        let mut r: Vec<String> = Vec::new();
        let mut i: usize = 0;
        while i < self.entries.len()
            invariant
                i <= self.entries.len(),
                r.len() == i,
                forall|j: int| 0 <= j < i ==> #[trigger] r@[j]@ == self.keys_seq()[j],
            decreases self.entries.len() - i,
        {
            r.push(self.entries[i].0.clone());
            i += 1;
        }
        proof {
            use_type_invariant(self);
            self.lemma_entries();
            assert(r.deep_view() =~= self.keys_seq());
        }
        r
    }
}

impl StringMap<String> {
    /// A map of its own with the same entries.
    pub fn duplicate(&self) -> (r: Self)
        ensures
            r@ == self@,
    {
        proof {
            use_type_invariant(self);
        }
        let mut entries: Vec<(String, String)> = Vec::new();
        let mut i: usize = 0;
        while i < self.entries.len()
            invariant
                i <= self.entries.len(),
                entries.len() == i,
                forall|j: int| 0 <= j < i ==> #[trigger] entries@[j] == self.entries@[j],
            decreases self.entries.len() - i,
        {
            entries.push((self.entries[i].0.clone(), self.entries[i].1.clone()));
            i += 1;
        }
        proof {
            assert(entries@ =~= self.entries@);
            assert(Seq::new(entries@.len(), |j: int| entries@[j].0@) =~= self.keys_seq());
        }
        let r = StringMap { entries };
        proof {
            assert(r.keys_seq() =~= self.keys_seq());
            assert(r.values_seq() =~= self.values_seq());
        }
        r
    }
}

/// The first `i + 1` keys are the first `i` and one more.
pub proof fn lemma_prefix_set(keys: Seq<Seq<char>>, i: int)
    requires
        keys.no_duplicates(),
        0 <= i < keys.len(),
    ensures
        keys.take(i).to_set().finite(),
        keys.take(i + 1).to_set().finite(),
        keys.take(i + 1).to_set().contains(keys[i]),
        keys.take(i + 1).to_set().remove(keys[i]) == keys.take(i).to_set(),
        keys.take(i + 1).to_set().subset_of(keys.to_set()),
{
    let some = keys.take(i);
    let more = keys.take(i + 1);
    vstd::seq_lib::seq_to_set_is_finite(some);
    vstd::seq_lib::seq_to_set_is_finite(more);
    assert(more =~= some.push(keys[i]));
    assert(more[i] == keys[i]);
    assert(!some.contains(keys[i])) by {
        if some.contains(keys[i]) {
            let k = some.index_of(keys[i]);
            assert(keys[k] == keys[i]);
        }
    }
    assert forall|x: Seq<char>| more.to_set().remove(keys[i]).contains(x) == some.to_set().contains(
        x,
    ) by {
        lemma_push_contains(some, keys[i], x);
    }
    assert(more.to_set().remove(keys[i]) =~= some.to_set());
    assert forall|x: Seq<char>| more.to_set().contains(x) implies keys.to_set().contains(x) by {
        let k = more.index_of(x);
        assert(keys[k] == x);
    }
}

/// What a sequence holds after an element is appended.
pub proof fn lemma_push_contains(s: Seq<Seq<char>>, elem: Seq<char>, x: Seq<char>)
    ensures
        s.push(elem).contains(x) <==> s.contains(x) || x == elem,
{
    if s.contains(x) {
        assert(s.push(elem)[s.index_of(x)] == x);
    }
    if x == elem {
        assert(s.push(elem)[s.len() as int] == x);
    }
    if s.push(elem).contains(x) && x != elem {
        assert(s[s.push(elem).index_of(x)] == x);
    }
}

} // verus!
