//! Counting how often records carry an identifier for an affiliation.

use vstd::prelude::*;
use vstd::hash_map::StringHashMap;
use crate::text::{first_index, lemma_first_index_absent, lemma_first_index_found, str_eq};

verus! {

/// The identifiers that records carry for one affiliation, each with the
/// number of records that carry it, in the order in which they first came.
#[derive(Debug, Clone)]
pub struct HashTally {
    pub hash: String,
    pub counts: Vec<(String, usize)>,
}

/// What a `HashTally` holds.
pub struct TallyView {
    pub hash: Seq<char>,
    pub counts: Seq<(Seq<char>, usize)>,
}

/// What a list of identifiers with their counts holds.
pub open spec fn count_views(counts: Seq<(String, usize)>) -> Seq<(Seq<char>, usize)> {
    counts.map_values(|c: (String, usize)| (c.0@, c.1))
}

impl View for HashTally {
    type V = TallyView;

    open spec fn view(&self) -> TallyView {
        TallyView { hash: self.hash@, counts: count_views(self.counts@) }
    }
}

/// What a sequence of tallies holds, in order.
pub open spec fn tally_views(tallies: Seq<HashTally>) -> Seq<TallyView> {
    tallies.map_values(|t: HashTally| t@)
}

/// The fingerprints of `tallies`, in order.
pub open spec fn hashes(tallies: Seq<TallyView>) -> Seq<Seq<char>> {
    tallies.map_values(|t: TallyView| t.hash)
}

/// The identifiers of `counts`, in order.
pub open spec fn identifiers(counts: Seq<(Seq<char>, usize)>) -> Seq<Seq<char>> {
    counts.map_values(|c: (Seq<char>, usize)| c.0)
}

/// `counts` after one more record that carries `id`: its count is raised by
/// one, or it comes behind the others with the count one.
pub open spec fn counted(counts: Seq<(Seq<char>, usize)>, id: Seq<char>) -> Seq<(Seq<char>, usize)> {
    match first_index(identifiers(counts), id) {
        Some(j) => counts.update(j, (id, (counts[j].1 + 1) as usize)),
        None => counts.push((id, 1)),
    }
}

/// `tallies` after one more record that carries `id` for the affiliation
/// with the fingerprint `hash`.
pub open spec fn tallied(tallies: Seq<TallyView>, hash: Seq<char>, id: Seq<char>) -> Seq<TallyView> {
    match first_index(hashes(tallies), hash) {
        Some(i) => tallies.update(i, TallyView { hash, counts: counted(tallies[i].counts, id) }),
        None => tallies.push(TallyView { hash, counts: seq![(id, 1usize)] }),
    }
}

/// The tallies of all affiliations, in the order in which their
/// fingerprints first came.
pub struct Tallies {
    groups: Vec<HashTally>,
    index: StringHashMap<usize>,
    added: usize,
}

impl View for Tallies {
    type V = Seq<TallyView>;

    closed spec fn view(&self) -> Seq<TallyView> {
        tally_views(self.groups@)
    }
}

impl Tallies {
    /// How many records were counted.
    pub closed spec fn total(&self) -> nat {
        self.added as nat
    }

    /// Whether the index leads to each tally by its fingerprint.
    pub closed spec fn indexed(&self) -> bool {
        &&& forall|i: int|
            0 <= i < self.groups@.len() ==> self.index@.contains_key(
                (#[trigger] self.groups@[i]).hash@,
            ) && self.index@[self.groups@[i].hash@] == i
        &&& forall|k: Seq<char>| #[trigger]
            self.index@.contains_key(k) ==> self.index@[k] < self.groups@.len()
                && self.groups@[self.index@[k] as int].hash@ == k
    }

    /// Well-formedness: the index is sound, and no count is larger than the
    /// number of records counted.
    pub open spec fn wf(&self) -> bool {
        &&& self.indexed()
        &&& forall|i: int, j: int|
            0 <= i < self@.len() && 0 <= j < self@[i].counts.len() ==> (
            #[trigger] self@[i].counts[j]).1 <= self.total()
    }

    /// No tallies.
    pub fn new() -> (t: Tallies)
        ensures
            t.wf(),
            t@ == Seq::<TallyView>::empty(),
            t.total() == 0,
    {
        let t = Tallies { groups: Vec::new(), index: StringHashMap::new(), added: 0 };
        assert(t@ =~= Seq::<TallyView>::empty());
        t
    }

    /// How many records were counted.
    pub fn count(&self) -> (n: usize)
        ensures
            n == self.total(),
    {
        self.added
    }

    /// The number of affiliations with a tally.
    pub fn len(&self) -> (n: usize)
        ensures
            n == self@.len(),
    {
        self.groups.len()
    }

    /// The tally that came as number `i`.
    pub fn get(&self, i: usize) -> (t: &HashTally)
        requires
            i < self@.len(),
        ensures
            t@ == self@[i as int],
    {
        &self.groups[i]
    }

    /// Counts one more record that carries `ror_id` for the affiliation with
    /// the fingerprint `hash`.
    pub fn add(&mut self, hash: &str, ror_id: &str)
        requires
            old(self).wf(),
            old(self).total() < usize::MAX,
        ensures
            final(self).wf(),
            final(self)@ == tallied(old(self)@, hash@, ror_id@),
            final(self).total() == old(self).total() + 1,
    {
        let ghost before = self@;
        let ghost keys = hashes(before);
        assert forall|k: int| 0 <= k < keys.len() implies keys[k] == self.groups@[k].hash@ by {}
        let found = match self.index.get(hash) {
            Some(i) => Some(*i),
            None => None,
        };
        match found {
            Some(i) => {
                proof {
                    assert(keys[i as int] == hash@);
                    assert forall|k: int| 0 <= k < i implies keys[k] != hash@ by {
                        assert(self.index@[self.groups@[k].hash@] == k);
                    }
                    lemma_first_index_found(keys, hash@, i as int);
                }
                let ghost old_counts = before[i as int].counts;
                let ghost ids = identifiers(old_counts);
                let n = self.groups[i].counts.len();
                let mut j: usize = 0;
                let mut at: Option<usize> = None;
                while j < n
                    invariant_except_break
                        at is None,
                        forall|k: int| 0 <= k < j ==> ids[k] != ror_id@,
                    invariant
                        j <= n,
                        i < self.groups@.len(),
                        n == self.groups@[i as int].counts@.len(),
                        self@ == before,
                        old_counts == before[i as int].counts,
                        ids == identifiers(old_counts),
                    ensures
                        at matches Some(p) ==> p < n && ids[p as int] == ror_id@ && forall|k: int|
                            0 <= k < p ==> ids[k] != ror_id@,
                        at is None ==> forall|k: int| 0 <= k < n ==> ids[k] != ror_id@,
                    decreases n - j,
                {
                    assert(ids[j as int] == self.groups@[i as int].counts@[j as int].0@);
                    if str_eq(self.groups[i].counts[j].0.as_str(), ror_id) {
                        at = Some(j);
                        break;
                    }
                    j = j + 1;
                }
                match at {
                    Some(p) => {
                        proof {
                            lemma_first_index_found(ids, ror_id@, p as int);
                            assert(old_counts[p as int].1 <= self.total());
                        }
                        let c = self.groups[i].counts[p].1;
                        self.groups[i].counts[p].1 = c + 1;
                        self.added = self.added + 1;
                        assert(count_views(self.groups@[i as int].counts@) =~= old_counts.update(
                            p as int,
                            (ror_id@, (c + 1) as usize),
                        ));
                    },
                    None => {
                        proof {
                            lemma_first_index_absent(ids, ror_id@);
                        }
                        self.groups[i].counts.push((ror_id.to_owned(), 1));
                        self.added = self.added + 1;
                        assert(count_views(self.groups@[i as int].counts@) =~= old_counts.push(
                            (ror_id@, 1usize),
                        ));
                    },
                }
                assert(self@ =~= tallied(before, hash@, ror_id@));
            },
            None => {
                proof {
                    assert forall|k: int| 0 <= k < keys.len() implies keys[k] != hash@ by {
                        assert(self.index@.contains_key(self.groups@[k].hash@));
                    }
                    lemma_first_index_absent(keys, hash@);
                }
                let position = self.groups.len();
                let mut counts: Vec<(String, usize)> = Vec::new();
                counts.push((ror_id.to_owned(), 1));
                assert(count_views(counts@) =~= seq![(ror_id@, 1usize)]);
                self.groups.push(HashTally { hash: hash.to_owned(), counts });
                self.index.insert(hash.to_owned(), position);
                self.added = self.added + 1;
                assert(self@ =~= tallied(before, hash@, ror_id@));
            },
        }
    }
}

} // verus!
