//! A set of strings that remembers the order in which its members came.

use vstd::prelude::*;
use vstd::hash_set::StringHashSet;
use crate::text::views;

verus! {

/// `entries` with the strings of `added` behind them, each at its first
/// occurrence and none twice.
pub open spec fn extended(entries: Seq<Seq<char>>, added: Seq<Seq<char>>) -> Seq<Seq<char>>
    decreases added.len(),
{
    if added.len() == 0 {
        entries
    } else {
        let before = extended(entries, added.drop_last());
        if before.contains(added.last()) {
            before
        } else {
            before.push(added.last())
        }
    }
}

/// A set of strings. Membership is decided by a hash index; the members are
/// also kept in the order of their first insertion.
pub struct UniqueStrings {
    index: StringHashSet,
    order: Vec<String>,
}

impl View for UniqueStrings {
    type V = Set<Seq<char>>;

    open spec fn view(&self) -> Set<Seq<char>> {
        self.entries().to_set()
    }
}

impl UniqueStrings {
    /// The members in the order of their first insertion.
    pub closed spec fn entries(&self) -> Seq<Seq<char>> {
        views(self.order@)
    }

    /// Whether the index holds exactly the members.
    pub closed spec fn indexed(&self) -> bool {
        self.index@ == self.entries().to_set()
    }

    /// Well-formedness: no member occurs twice, and the index agrees with
    /// the members.
    pub open spec fn wf(&self) -> bool {
        &&& self.entries().no_duplicates()
        &&& self.indexed()
    }

    /// The empty set.
    pub fn new() -> (set: UniqueStrings)
        ensures
            set.wf(),
            set.entries() == Seq::<Seq<char>>::empty(),
            set@ == Set::<Seq<char>>::empty(),
    {
        let set = UniqueStrings { index: StringHashSet::new(), order: Vec::new() };
        assert(set.entries() =~= Seq::<Seq<char>>::empty());
        assert(set.entries().to_set() =~= Set::<Seq<char>>::empty());
        set
    }

    /// Adds `member`, and says whether it was new.
    pub fn insert(&mut self, member: &str) -> (added: bool)
        requires
            old(self).wf(),
        ensures
            final(self).wf(),
            added == !old(self)@.contains(member@),
            final(self)@ == old(self)@.insert(member@),
            final(self).entries() == if added {
                old(self).entries().push(member@)
            } else {
                old(self).entries()
            },
    {
        let ghost before = self.entries();
        if self.index.insert(member.to_owned()) {
            self.order.push(member.to_owned());
            assert(self.entries() =~= before.push(member@));
            proof {
                before.lemma_push_to_set_commute(member@);
            }
            true
        } else {
            assert(before.to_set().insert(member@) =~= before.to_set());
            false
        }
    }

    /// Whether `member` is in the set.
    pub fn contains(&self, member: &str) -> (r: bool)
        requires
            self.wf(),
        ensures
            r == self@.contains(member@),
    {
        self.index.contains(member)
    }

    /// The number of members.
    pub fn len(&self) -> (n: usize)
        requires
            self.wf(),
        ensures
            n == self@.len(),
            n == self.entries().len(),
    {
        proof {
            self.entries().unique_seq_to_set();
        }
        self.order.len()
    }

    /// The member that came as number `i`.
    pub fn get(&self, i: usize) -> (member: &str)
        requires
            i < self.entries().len(),
        ensures
            member@ == self.entries()[i as int],
    {
        self.order[i].as_str()
    }

    /// The members in the order of their first insertion.
    pub fn into_vec(self) -> (members: Vec<String>)
        ensures
            views(members@) == self.entries(),
    {
        self.order
    }
}

} // verus!
