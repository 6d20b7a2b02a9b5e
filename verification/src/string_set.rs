//! A set of texts that can be searched and walked.

use vstd::hash_set::StringHashSet;
use vstd::prelude::*;

use crate::types::texts;

verus! {

/// A set of texts.
pub struct StringSet {
    members: Vec<String>,
    index: StringHashSet,
}

impl View for StringSet {
    type V = Set<Seq<char>>;

    closed spec fn view(&self) -> Set<Seq<char>> {
        self.index@
    }
}

impl StringSet {
    /// No member is listed twice, and the members are those of the index.
    #[verifier::type_invariant]
    spec fn wf(self) -> bool {
        &&& texts(self.members@).no_duplicates()
        &&& forall|t: Seq<char>| #[trigger]
            self.index@.contains(t) <==> texts(self.members@).contains(t)
    }

    /// The empty set.
    pub fn new() -> (set: Self)
        ensures
            set@ == Set::<Seq<char>>::empty(),
    {
        StringSet { members: Vec::new(), index: StringHashSet::new() }
    }

    /// Whether `text` is in the set.
    pub fn contains(&self, text: &str) -> (found: bool)
        ensures
            found == self@.contains(text@),
    {
        self.index.contains(text)
    }

    /// Adds `text`, and says whether it was missing.
    pub fn insert(&mut self, text: String) -> (added: bool)
        ensures
            final(self)@ == old(self)@.insert(text@),
            added == !old(self)@.contains(text@),
    {
        proof {
            use_type_invariant(&*self);
        }
        let mut taken = StringSet::new();
        std::mem::swap(&mut taken, self);
        let StringSet { mut members, mut index } = taken;
        let ghost before = members@;
        let copy = text.clone();
        let added = index.insert(text);
        if added {
            members.push(copy);
            proof {
                assert(texts(members@) =~= texts(before).push(copy@));
                assert forall|t: Seq<char>| #[trigger]
                    index@.contains(t) <==> texts(members@).contains(t) by {
                    if index@.contains(t) {
                        if t == copy@ {
                            assert(texts(members@)[before.len() as int] == t);
                        } else {
                            let i = texts(before).index_of(t);
                            assert(texts(members@)[i] == t);
                        }
                    }
                }
            }
        }
        *self = StringSet { members, index };
        added
    }

    /// The members of the set, each of them once.
    pub fn members(&self) -> (members: &Vec<String>)
        ensures
            texts(members@).no_duplicates(),
            texts(members@).to_set() == self@,
    {
        proof {
            use_type_invariant(&*self);
            assert(texts(self.members@).to_set() =~= self@);
        }
        &self.members
    }
}

} // verus!
