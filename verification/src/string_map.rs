//! A finite map from strings to values with verified lookup and insertion.

use crate::string_set::string_views;
use vstd::prelude::*;

verus! {

/// A finite map keyed by strings that remembers the order in which its keys
/// entered.
///
/// The map is modelled by a `Map<Seq<char>, V>`: two strings are the same key
/// exactly when they hold the same characters.
pub struct StringMap<V> {
    keys: Vec<String>,
    values: Vec<V>,
}

impl<V> View for StringMap<V> {
    type V = Map<Seq<char>, V>;

    closed spec fn view(&self) -> Map<Seq<char>, V> {
        let keys = self.key_order();
        Map::new(|k: Seq<char>| keys.contains(k), |k: Seq<char>| self.values@[keys.index_of(k)])
    }
}

impl<V> StringMap<V> {
    /// Each key is stored once, beside its value.
    #[verifier::type_invariant]
    spec fn paired(&self) -> bool {
        &&& self.keys@.len() == self.values@.len()
        &&& string_views(self.keys@).no_duplicates()
    }

    /// The keys in the order in which they entered the map.
    pub closed spec fn key_order(&self) -> Seq<Seq<char>> {
        string_views(self.keys@)
    }

    /// The map's domain is what its key order lists, and is therefore
    /// finite.
    pub proof fn lemma_key_order_spans(&self)
        ensures
            self.key_order().to_set() == self@.dom(),
            self@.dom().finite(),
    {
        vstd::seq_lib::seq_to_set_is_finite(self.key_order());
    }

    /// The empty map.
    pub fn new() -> (m: Self)
        ensures
            m@ == Map::<Seq<char>, V>::empty(),
            m.key_order() == Seq::<Seq<char>>::empty(),
    {
        StringMap { keys: Vec::new(), values: Vec::new() }
    }

    /// The number of keys.
    pub fn len(&self) -> (n: usize)
        ensures
            self@.dom().finite(),
            n == self@.len(),
            n == self.key_order().len(),
    {
        proof {
            use_type_invariant(self);
            self.lemma_key_order_spans();
            self.key_order().unique_seq_to_set();
        }
        self.keys.len()
    }

    /// The place at which `key` is stored, if it is a key of the map.
    fn position(&self, key: &String) -> (at: Option<usize>)
        ensures
            match at {
                Some(i) => i < self.key_order().len() && self.key_order()[i as int] == key@,
                None => !self.key_order().contains(key@),
            },
    {
        let n: usize = self.keys.len();
        let mut i: usize = 0;
        while i < n
            invariant
                i <= n,
                n == self.keys@.len(),
                forall|j: int| 0 <= j < i ==> string_views(self.keys@)[j] != key@,
            decreases n - i,
        {
            if self.keys[i] == *key {
                return Some(i);
            }
            i += 1;
        }
        None
    }

    /// Whether `key` is a key of the map.
    pub fn contains_key(&self, key: &String) -> (found: bool)
        ensures
            found == self@.contains_key(key@),
    {
        self.position(key).is_some()
    }

    /// The value stored under `key`, if there is one.
    pub fn get(&self, key: &String) -> (value: Option<&V>)
        ensures
            match value {
                Some(v) => self@.contains_key(key@) && *v == self@[key@],
                None => !self@.contains_key(key@),
            },
    {
        proof {
            use_type_invariant(self);
        }
        match self.position(key) {
            Some(i) => Some(&self.values[i]),
            None => None,
        }
    }

    /// The keys, each once, in the order in which they entered the map.
    pub fn keys(&self) -> (all: &Vec<String>)
        ensures
            string_views(all@) == self.key_order(),
            self.key_order().no_duplicates(),
            self.key_order().to_set() == self@.dom(),
    {
        proof {
            use_type_invariant(self);
            self.lemma_key_order_spans();
        }
        &self.keys
    }

    /// The values, in the order of their keys: the value at each place is
    /// the one stored under the key at that place of the key order.
    pub fn values(&self) -> (all: &Vec<V>)
        ensures
            self.key_order().no_duplicates(),
            self.key_order().to_set() == self@.dom(),
            all@.len() == self.key_order().len(),
            forall|i: int| 0 <= i < all@.len() ==> all@[i] == self@[#[trigger] self.key_order()[i]],
    {
        proof {
            use_type_invariant(self);
            self.lemma_key_order_spans();
        }
        &self.values
    }

    /// Stores `value` under `key`. Returns the value that `key` held before,
    /// or `None` when `key` is new to the map; a new key comes last in the
    /// key order, and a known key keeps its place.
    pub fn insert(&mut self, key: String, value: V) -> (previous: Option<V>)
        ensures
            final(self)@ == old(self)@.insert(key@, value),
            match previous {
                Some(v) => old(self)@.contains_key(key@) && v == old(self)@[key@],
                None => !old(self)@.contains_key(key@),
            },
            final(self).key_order() == if old(self)@.contains_key(key@) {
                old(self).key_order()
            } else {
                old(self).key_order().push(key@)
            },
    {
        proof {
            use_type_invariant(&*self);
        }
        let at = self.position(&key);
        let mut taken: StringMap<V> = StringMap::new();
        std::mem::swap(self, &mut taken);
        let StringMap { mut keys, mut values } = taken;
        let ghost old_keys = string_views(keys@);
        let ghost old_values = values@;
        let previous = match at {
            Some(i) => {
                values.push(value);
                let replaced = values.swap_remove(i);
                assert(values@ =~= old_values.update(i as int, value));
                Some(replaced)
            },
            None => {
                keys.push(key);
                values.push(value);
                assert(string_views(keys@) =~= old_keys.push(key@));
                None
            },
        };
        *self = StringMap { keys, values };
        proof {
            let new_keys = self.key_order();
            assert forall|k: Seq<char>| new_keys.contains(k) <==> (k == key@ || old_keys.contains(
                k,
            )) by {
                if old_keys.contains(k) {
                    assert(new_keys[old_keys.index_of(k)] == k);
                }
                if k == key@ && at is None {
                    assert(new_keys[old_keys.len() as int] == k);
                }
            }
        }
        previous
    }
}

} // verus!
