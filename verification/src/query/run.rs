//! The bookkeeping of one batch run: which units of work there are, which of
//! them have their record written, and what the checkpoint holds.

use vstd::prelude::*;
use crate::query::checkpoint::Checkpoint;
use crate::query::client::Resolution;
use crate::query::{
    lemma_resume_skips_processed, outcome_record, pending, pending_spec, unit_views, SinkRecord,
};
use crate::text::{str_eq, views};

verus! {

/// How many of `flags` are set.
pub open spec fn count_set(flags: Seq<bool>) -> nat
    decreases flags.len(),
{
    if flags.len() == 0 {
        0
    } else {
        count_set(flags.drop_last()) + if flags.last() {
            1nat
        } else {
            0nat
        }
    }
}

/// No more flags are set than there are.
pub proof fn lemma_count_set_bound(flags: Seq<bool>)
    ensures
        count_set(flags) <= flags.len(),
        count_set(flags) == flags.len() ==> forall|i: int| 0 <= i < flags.len() ==> flags[i],
    decreases flags.len(),
{
    if flags.len() > 0 {
        lemma_count_set_bound(flags.drop_last());
        assert forall|i: int|
            count_set(flags) == flags.len() && 0 <= i < flags.len() implies flags[i] by {
            if i < flags.len() - 1 {
                assert(flags.drop_last()[i] == flags[i]);
            }
        }
    }
}

/// Setting a flag that was clear raises the count by one.
pub proof fn lemma_count_set_update(flags: Seq<bool>, i: int)
    requires
        0 <= i < flags.len(),
        !flags[i],
    ensures
        count_set(flags.update(i, true)) == count_set(flags) + 1,
    decreases flags.len(),
{
    let after = flags.update(i, true);
    if i == flags.len() - 1 {
        assert(after.drop_last() =~= flags.drop_last());
    } else {
        assert(after.drop_last() =~= flags.drop_last().update(i, true));
        lemma_count_set_update(flags.drop_last(), i);
    }
}

/// No flag of a fresh list is set.
pub proof fn lemma_count_set_none(flags: Seq<bool>)
    requires
        forall|i: int| 0 <= i < flags.len() ==> !flags[i],
    ensures
        count_set(flags) == 0,
    decreases flags.len(),
{
    if flags.len() > 0 {
        lemma_count_set_none(flags.drop_last());
    }
}

/// One batch run.
pub struct Run {
    checkpoint: Checkpoint,
    units: Vec<(String, String)>,
    done: Vec<bool>,
    matched: usize,
    failed: usize,
    started_from: Ghost<Set<Seq<char>>>,
}

impl Run {
    /// The path of the file that persists the checkpoint.
    pub closed spec fn path(&self) -> Seq<char> {
        self.checkpoint.path_view()
    }

    /// The entries of the checkpoint, in the order in which they were first
    /// marked.
    pub closed spec fn entries(&self) -> Seq<Seq<char>> {
        self.checkpoint.entries()
    }

    /// What the checkpoint holds.
    pub open spec fn processed(&self) -> Set<Seq<char>> {
        self.entries().to_set()
    }

    /// What the checkpoint held when the run was planned.
    pub closed spec fn processed_at_start(&self) -> Set<Seq<char>> {
        self.started_from@
    }

    /// The units of work: each an affiliation with its fingerprint.
    pub closed spec fn units(&self) -> Seq<(Seq<char>, Seq<char>)> {
        unit_views(self.units@)
    }

    /// For each unit, whether its record is written.
    pub closed spec fn recorded(&self) -> Seq<bool> {
        self.done@
    }

    /// How many match records are written.
    pub closed spec fn matched_count(&self) -> nat {
        self.matched as nat
    }

    /// How many failure records are written.
    pub closed spec fn failed_count(&self) -> nat {
        self.failed as nat
    }

    /// The part of well-formedness that concerns the representation.
    pub closed spec fn consistent(&self) -> bool {
        &&& self.checkpoint.wf()
        &&& self.done@.len() == self.units@.len()
    }

    /// Whether the record of a unit with the fingerprint `hash` is written.
    pub open spec fn has_record(&self, hash: Seq<char>) -> bool {
        exists|i: int|
            0 <= i < self.units().len() && self.recorded()[i] && (#[trigger] self.units()[i]).1
                == hash
    }

    /// Well-formedness. The checkpoint holds what it held at the start and
    /// the fingerprint of every unit whose record is written, and nothing
    /// else; the counts add up to the number of those units.
    pub open spec fn wf(&self) -> bool {
        &&& self.consistent()
        &&& self.recorded().len() == self.units().len()
        &&& self.matched_count() + self.failed_count() == count_set(self.recorded())
        &&& forall|hash: Seq<char>|
            #![trigger self.has_record(hash)]
            #![trigger self.processed().contains(hash)]
            #![trigger self.processed_at_start().contains(hash)]
            self.processed().contains(hash) <==> self.processed_at_start().contains(hash)
                || self.has_record(hash)
    }

    /// Whether every unit has its record written.
    pub open spec fn finished(&self) -> bool {
        self.matched_count() + self.failed_count() == self.units().len()
    }

    /// Plans a run over `affiliations` that starts from `checkpoint`: its
    /// units are the affiliations whose fingerprint the checkpoint does not
    /// hold.
    pub fn plan(affiliations: &Vec<String>, checkpoint: Checkpoint) -> (run: Run)
        requires
            checkpoint.wf(),
        ensures
            run.wf(),
            run.path() == checkpoint.path_view(),
            run.entries() == checkpoint.entries(),
            run.processed() == checkpoint@,
            run.processed_at_start() == checkpoint@,
            run.units() == pending_spec(views(affiliations@), checkpoint@),
            run.recorded() == Seq::new(run.units().len(), |i: int| false),
            run.matched_count() == 0,
            run.failed_count() == 0,
    {
        let units = pending(affiliations, &checkpoint);
        let mut done: Vec<bool> = Vec::new();
        let mut i: usize = 0;
        while i < units.len()
            invariant
                i <= units.len(),
                done@.len() == i,
                forall|k: int| 0 <= k < i ==> !done@[k],
            decreases units.len() - i,
        {
            done.push(false);
            i = i + 1;
        }
        proof {
            lemma_count_set_none(done@);
        }
        let ghost start = checkpoint@;
        let run = Run { checkpoint, units, done, matched: 0, failed: 0, started_from: Ghost(start) };
        assert(run.recorded() =~= Seq::new(run.units().len(), |i: int| false));
        run
    }

    /// The number of units.
    pub fn total(&self) -> (n: usize)
        requires
            self.wf(),
        ensures
            n == self.units().len(),
    {
        self.units.len()
    }

    /// The number of match records written.
    pub fn matched(&self) -> (n: usize)
        ensures
            n == self.matched_count(),
    {
        self.matched
    }

    /// The number of failure records written.
    pub fn failed(&self) -> (n: usize)
        ensures
            n == self.failed_count(),
    {
        self.failed
    }

    /// The number of units whose record is written.
    pub fn completed(&self) -> (n: usize)
        requires
            self.wf(),
        ensures
            n == self.matched_count() + self.failed_count(),
            n <= self.units().len(),
    {
        let cap = self.done.len();
        proof {
            lemma_count_set_bound(self.done@);
            assert(self.matched + self.failed <= cap);
        }
        self.matched + self.failed
    }

    /// Whether every unit has its record written.
    pub fn is_finished(&self) -> (r: bool)
        requires
            self.wf(),
        ensures
            r == self.finished(),
    {
        self.completed() == self.units.len()
    }

    /// The checkpoint as it stands.
    pub fn checkpoint(&self) -> (cp: &Checkpoint)
        requires
            self.wf(),
        ensures
            cp.wf(),
            cp.path_view() == self.path(),
            cp.entries() == self.entries(),
            cp@ == self.processed(),
    {
        &self.checkpoint
    }

    /// Gives up the run and hands out its checkpoint.
    pub fn into_checkpoint(self) -> (cp: Checkpoint)
        requires
            self.wf(),
        ensures
            cp.wf(),
            cp.path_view() == self.path(),
            cp.entries() == self.entries(),
            cp@ == self.processed(),
    {
        self.checkpoint
    }

    /// The affiliation and the fingerprint of unit number `index`.
    pub fn unit(&self, index: usize) -> (r: Option<(&str, &str)>)
        requires
            self.wf(),
        ensures
            r is Some <==> index < self.units().len(),
            r matches Some(u) ==> (u.0@, u.1@) == self.units()[index as int],
    {
        if index < self.units.len() {
            let u = &self.units[index];
            Some((u.0.as_str(), u.1.as_str()))
        } else {
            None
        }
    }

    /// The record to write for unit number `index`, whose lookup ended with
    /// `resolution`.
    pub fn record_for(&self, index: usize, resolution: Resolution) -> (r: Option<SinkRecord>)
        requires
            self.wf(),
        ensures
            r is Some <==> index < self.units().len(),
            r matches Some(record) ==> {
                &&& record.hash() == self.units()[index as int].1
                &&& record is Matched <==> resolution is Matched
                &&& record matches SinkRecord::Matched(m) ==> m.affiliation@ == self.units()[index as int].0
                    && resolution == Resolution::Matched(m.ror_id)
                &&& record matches SinkRecord::Failed(f) ==> f.affiliation@ == self.units()[index as int].0
                    && f.error@ == crate::query::failure_reason(resolution)
            },
    {
        if index < self.units.len() {
            let u = &self.units[index];
            Some(outcome_record(u.0.clone(), u.1.clone(), resolution))
        } else {
            None
        }
    }

    /// Takes note that `record`, the record of unit number `index`, is
    /// written to its output stream: marks the unit's fingerprint as
    /// processed and counts the record. Nothing changes, and the answer is
    /// `false`, where there is no such unit, where its record was noted
    /// before, or where `record` is about another fingerprint.
    pub fn mark_recorded(&mut self, index: usize, record: &SinkRecord) -> (applied: bool)
        requires
            old(self).wf(),
        ensures
            final(self).wf(),
            final(self).path() == old(self).path(),
            final(self).units() == old(self).units(),
            final(self).processed_at_start() == old(self).processed_at_start(),
            applied == (index < old(self).units().len() && !old(self).recorded()[index as int]
                && record.hash() == old(self).units()[index as int].1),
            !applied ==> {
                &&& final(self).entries() == old(self).entries()
                &&& final(self).processed() == old(self).processed()
                &&& final(self).recorded() == old(self).recorded()
                &&& final(self).matched_count() == old(self).matched_count()
                &&& final(self).failed_count() == old(self).failed_count()
            },
            applied ==> {
                &&& final(self).entries() == if old(self).processed().contains(record.hash()) {
                    old(self).entries()
                } else {
                    old(self).entries().push(record.hash())
                }
                &&& final(self).processed() == old(self).processed().insert(record.hash())
                &&& final(self).recorded() == old(self).recorded().update(index as int, true)
                &&& final(self).matched_count() == old(self).matched_count() + if record is Matched {
                    1nat
                } else {
                    0nat
                }
                &&& final(self).failed_count() == old(self).failed_count() + if record is Matched {
                    0nat
                } else {
                    1nat
                }
            },
    {
        if index >= self.units.len() {
            return false;
        }
        if self.done[index] {
            return false;
        }
        if !str_eq(record.affiliation_hash(), self.units[index].1.as_str()) {
            return false;
        }
        proof {
            lemma_count_set_update(self.done@, index as int);
            lemma_count_set_bound(self.done@.update(index as int, true));
        }
        self.checkpoint.mark_processed(record.affiliation_hash());
        self.done.set(index, true);
        match record {
            SinkRecord::Matched(_) => {
                self.matched = self.matched + 1;
            },
            SinkRecord::Failed(_) => {
                self.failed = self.failed + 1;
            },
        }
        proof {
            let marked = record.hash();
            assert(self.units()[index as int].1 == marked);
            assert forall|hash: Seq<char>|
                #![trigger self.has_record(hash)]
                #![trigger self.processed().contains(hash)]
                #![trigger self.processed_at_start().contains(hash)]
                self.processed().contains(hash) <==> self.processed_at_start().contains(hash)
                    || self.has_record(hash) by {
                if old(self).has_record(hash) {
                    let i = choose|i: int|
                        0 <= i < old(self).units().len() && old(self).recorded()[i] && (
                        #[trigger] old(self).units()[i]).1 == hash;
                    assert(self.recorded()[i] && self.units()[i].1 == hash);
                }
                if hash == marked {
                    assert(self.recorded()[index as int] && self.units()[index as int].1 == hash);
                }
                if self.has_record(hash) && hash != marked {
                    let i = choose|i: int|
                        0 <= i < self.units().len() && self.recorded()[i] && (
                        #[trigger] self.units()[i]).1 == hash;
                    assert(old(self).recorded()[i] && old(self).units()[i].1 == hash);
                }
            }
        }
        true
    }
}

/// Once a run is finished, its checkpoint holds the fingerprint of every
/// unit.
pub proof fn lemma_finished_run_covers_units(run: Run)
    requires
        run.wf(),
        run.finished(),
    ensures
        forall|i: int|
            0 <= i < run.units().len() ==> run.processed().contains((#[trigger] run.units()[i]).1),
{
    lemma_count_set_bound(run.recorded());
    assert forall|i: int| 0 <= i < run.units().len() implies run.processed().contains(
        (#[trigger] run.units()[i]).1,
    ) by {
        assert(run.recorded()[i]);
        assert(run.has_record(run.units()[i].1));
    }
}

/// A run never takes anything out of its checkpoint.
pub proof fn lemma_run_keeps_checkpoint(run: Run)
    requires
        run.wf(),
    ensures
        run.processed_at_start().subset_of(run.processed()),
{
    assert forall|hash: Seq<char>| run.processed_at_start().contains(hash) implies run.processed().contains(
        hash,
    ) by {
    }
}

/// A run that resumes from the checkpoint of a finished run does not repeat
/// that run's work: of the earlier inputs nothing is pending, so its units
/// are those that the added inputs alone give.
pub proof fn lemma_finished_run_is_not_repeated(run: Run, inputs: Seq<Seq<char>>, added: Seq<Seq<char>>)
    requires
        run.wf(),
        run.finished(),
        run.units() == pending_spec(inputs, run.processed_at_start()),
    ensures
        pending_spec(inputs, run.processed()) == Seq::<(Seq<char>, Seq<char>)>::empty(),
        pending_spec(inputs + added, run.processed()) == pending_spec(added, run.processed()),
{
    lemma_finished_run_covers_units(run);
    lemma_run_keeps_checkpoint(run);
    lemma_resume_skips_processed(inputs, added, run.processed_at_start(), run.processed());
}

} // verus!
