//! A finite set of strings with verified membership, insertion and size.

use vstd::prelude::*;

verus! {

/// The contents of a list of strings, each taken as its sequence of characters.
pub open spec fn string_views(items: Seq<String>) -> Seq<Seq<char>> {
    items.map_values(|s: String| s@)
}

/// A finite set of strings that remembers the order in which its members
/// entered.
///
/// The set is modelled by a `Set<Seq<char>>`: two strings are the same member
/// exactly when they hold the same characters.
pub struct StringSet {
    items: Vec<String>,
}

impl View for StringSet {
    type V = Set<Seq<char>>;

    closed spec fn view(&self) -> Set<Seq<char>> {
        self.order().to_set()
    }
}

impl StringSet {
    /// No member is stored twice.
    #[verifier::type_invariant]
    spec fn distinct(&self) -> bool {
        string_views(self.items@).no_duplicates()
    }

    /// The members in the order in which they entered the set.
    pub closed spec fn order(&self) -> Seq<Seq<char>> {
        string_views(self.items@)
    }

    /// The set holds what its order lists, and is therefore finite.
    pub proof fn lemma_order_spans(&self)
        ensures
            self.order().to_set() == self@,
            self@.finite(),
    {
        vstd::seq_lib::seq_to_set_is_finite(self.order());
    }

    /// The empty set.
    pub fn new() -> (s: Self)
        ensures
            s@ == Set::<Seq<char>>::empty(),
            s.order() == Seq::<Seq<char>>::empty(),
    {
        StringSet { items: Vec::new() }
    }

    /// The number of members.
    pub fn len(&self) -> (n: usize)
        ensures
            self@.finite(),
            n == self@.len(),
            n == self.order().len(),
    {
        proof {
            use_type_invariant(self);
            self.lemma_order_spans();
            self.order().unique_seq_to_set();
        }
        self.items.len()
    }

    /// Whether `value` is a member.
    pub fn contains(&self, value: &String) -> (found: bool)
        ensures
            found == self@.contains(value@),
    {
        let n: usize = self.items.len();
        let mut i: usize = 0;
        while i < n
            invariant
                i <= n,
                n == self.items@.len(),
                forall|j: int| 0 <= j < i ==> string_views(self.items@)[j] != value@,
            decreases n - i,
        {
            if self.items[i] == *value {
                assert(string_views(self.items@)[i as int] == value@);
                return true;
            }
            i += 1;
        }
        false
    }

    /// The members, each once, in the order in which they entered the set.
    pub fn items(&self) -> (all: &Vec<String>)
        ensures
            string_views(all@) == self.order(),
            self.order().no_duplicates(),
            self.order().to_set() == self@,
    {
        proof {
            use_type_invariant(self);
        }
        &self.items
    }

    /// Adds `value` to the set. Returns `true` when it was not yet a member,
    /// and it then comes last in the order; otherwise the set is left as it
    /// was and `false` is returned.
    pub fn insert(&mut self, value: String) -> (fresh: bool)
        ensures
            fresh == !old(self)@.contains(value@),
            final(self)@ == old(self)@.insert(value@),
            final(self).order() == if fresh {
                old(self).order().push(value@)
            } else {
                old(self).order()
            },
    {
        if self.contains(&value) {
            false
        } else {
            proof {
                use_type_invariant(&*self);
                assert(string_views(self.items@.push(value)) =~= self.order().push(value@));
                self.order().lemma_push_to_set_commute(value@);
            }
            let mut items: Vec<String> = Vec::new();
            std::mem::swap(&mut items, &mut self.items);
            items.push(value);
            self.items = items;
            true
        }
    }
}

} // verus!
