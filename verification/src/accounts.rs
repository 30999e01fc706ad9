//! Sets of account identifiers.

use crate::text;
use vstd::prelude::*;

verus! {

/// A set of account identifiers, in the order in which they came.
#[derive(Debug)]
pub struct AccountSet {
    ids: Vec<String>,
}

impl AccountSet {
    /// The identifiers, in the order in which they came.
    pub closed spec fn listed(self) -> Seq<Seq<char>> {
        Seq::new(self.ids@.len(), |i: int| self.ids@[i]@)
    }

    /// No identifier is held twice.
    #[verifier::type_invariant]
    spec fn unique(self) -> bool {
        self.listed().no_duplicates()
    }
}

impl View for AccountSet {
    type V = Set<Seq<char>>;

    open spec fn view(&self) -> Set<Seq<char>> {
        self.listed().to_set()
    }
}

impl AccountSet {
    /// The empty set.
    pub fn new() -> (set: Self)
        ensures
            set@ == Set::<Seq<char>>::empty(),
            set.listed() == Seq::<Seq<char>>::empty(),
    {
        let set = AccountSet { ids: Vec::new() };
        assert(set.listed() =~= Seq::<Seq<char>>::empty());
        assert(set@ =~= Set::<Seq<char>>::empty());
        set
    }

    /// Whether `id` is in the set.
    pub fn contains(&self, id: &str) -> (found: bool)
        ensures
            found == self@.contains(id@),
    {
        let mut i: usize = 0;
        while i < self.ids.len()
            invariant
                i <= self.ids@.len(),
                forall|j: int| 0 <= j < i ==> self.listed()[j] != id@,
            decreases self.ids@.len() - i,
        {
            if text::same(self.ids[i].as_str(), id) {
                assert(self.listed()[i as int] == id@);
                return true;
            }
            i = i + 1;
        }
        false
    }

    /// Adds `id`; whether it was new.
    pub fn insert(&mut self, id: String) -> (added: bool)
        ensures
            final(self)@ == old(self)@.insert(id@),
            added == !old(self)@.contains(id@),
            final(self).listed() == if added {
                old(self).listed().push(id@)
            } else {
                old(self).listed()
            },
    {
        proof {
            use_type_invariant(&*self);
        }
        if self.contains(id.as_str()) {
            assert(self@ =~= self@.insert(id@));
            return false;
        }
        let ghost before = self.listed();
        let mut ids: Vec<String> = Vec::new();
        std::mem::swap(&mut ids, &mut self.ids);
        ids.push(id);
        proof {
            let longer = AccountSet { ids };
            assert(longer.listed() =~= before.push(id@));
            before.lemma_push_to_set_commute(id@);
        }
        self.ids = ids;
        true
    }

    /// The number of identifiers.
    pub fn len(&self) -> (n: usize)
        ensures
            n == self@.len(),
            n == self.listed().len(),
    {
        proof {
            use_type_invariant(self);
            self.listed().unique_seq_to_set();
        }
        self.ids.len()
    }

    /// Whether there is no identifier in the set.
    pub fn is_empty(&self) -> (empty: bool)
        ensures
            empty == (self@ == Set::<Seq<char>>::empty()),
    {
        proof {
            if self.ids@.len() > 0 {
                assert(self@.contains(self.listed()[0]));
            } else {
                assert(self@ =~= Set::<Seq<char>>::empty());
            }
        }
        self.ids.len() == 0
    }

    /// The identifiers, in the order in which they came.
    pub fn as_slice(&self) -> (ids: &[String])
        ensures
            ids@.len() == self.listed().len(),
            forall|i: int| 0 <= i < ids@.len() ==> (#[trigger] ids@[i])@ == self.listed()[i],
    {
        self.ids.as_slice()
    }
}

impl Clone for AccountSet {
    /// A set with the same identifiers, in the same order.
    fn clone(&self) -> (set: Self)
        ensures
            set@ == self@,
            set.listed() == self.listed(),
    {
        proof {
            use_type_invariant(self);
        }
        let mut ids: Vec<String> = Vec::new();
        let mut i: usize = 0;
        while i < self.ids.len()
            invariant
                i <= self.ids@.len(),
                ids@.len() == i,
                forall|j: int| 0 <= j < i ==> (#[trigger] ids@[j])@ == self.ids@[j]@,
            decreases self.ids@.len() - i,
        {
            ids.push(self.ids[i].clone());
            i = i + 1;
        }
        proof {
            let copy = AccountSet { ids };
            assert(copy.listed() =~= self.listed());
        }
        AccountSet { ids }
    }
}

/// A set of account identifiers is finite.
pub proof fn law_account_set_finite(set: AccountSet)
    ensures
        set@.finite(),
{
    set.listed().lemma_cardinality_of_set();
}

} // verus!
