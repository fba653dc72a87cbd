//! The resolution engine: checkpoint, registry lookup protocol, and the
//! bookkeeping of a batch run.

use vstd::prelude::*;
use crate::fingerprint;
use crate::hash_affiliation;
use crate::text::views;
use crate::{RorMatch, RorMatchFailed};

pub mod checkpoint;
pub mod client;
pub mod decimal;
pub mod registry;
pub mod retry;
pub mod run;
pub mod url;

pub use checkpoint::Checkpoint;
pub use client::RorClient;
pub use run::Run;
use checkpoint::loaded_entries;
use client::Resolution;

verus! {

/// What a batch run is given by its caller.
#[derive(Debug, Clone)]
pub struct QueryArgs {
    /// The directory that holds the list of affiliations.
    pub input: String,
    /// The directory that receives the results and the checkpoint.
    pub output: String,
    /// The address below which the registry is reached.
    pub base_url: String,
    /// How many lookups may run at once.
    pub concurrency: usize,
    /// The seconds after which a request is given up.
    pub timeout: u64,
    /// Whether to go on from an existing checkpoint.
    pub resume: bool,
    /// Whether the broad fallback is enabled.
    pub fallback_multi: bool,
}

impl QueryArgs {
    /// The arguments of a run from `input` to `output` with every option at
    /// its default: a local registry, fifty lookups at once, thirty seconds
    /// per request, a fresh start, no broad fallback.
    pub fn with_defaults(input: String, output: String) -> (args: QueryArgs)
        ensures
            args.input == input,
            args.output == output,
            args.base_url@ == "http://localhost:9292"@,
            args.concurrency == 50,
            args.timeout == 30,
            !args.resume,
            !args.fallback_multi,
    {
        QueryArgs {
            input,
            output,
            base_url: "http://localhost:9292".to_owned(),
            concurrency: 50,
            timeout: 30,
            resume: false,
            fallback_multi: false,
        }
    }
}

/// How an output file is opened.
#[derive(Debug, Clone, Copy, PartialEq, Eq)]
pub enum SinkMode {
    /// Keep what the file holds and write behind it.
    Append,
    /// Start with an empty file.
    Truncate,
}

/// How to open an output file: a resumed run appends to a file that exists,
/// every other run starts it anew.
pub fn sink_mode(resume: bool, present: bool) -> (mode: SinkMode)
    ensures
        mode == if resume && present {
            SinkMode::Append
        } else {
            SinkMode::Truncate
        },
{
    if resume && present {
        SinkMode::Append
    } else {
        SinkMode::Truncate
    }
}

/// The checkpoint that a run starts from. A resumed run takes over what the
/// checkpoint file at `path` holds, where `existing` is its text; every other
/// run, and a resumed run without such a file, starts empty.
pub fn open_checkpoint(path: &str, resume: bool, existing: Option<&str>) -> (cp: Checkpoint)
    ensures
        cp.wf(),
        cp.path_view() == path@,
        cp.entries() == match existing {
            Some(text) if resume => loaded_entries(text@),
            _ => Seq::<Seq<char>>::empty(),
        },
{
    if resume {
        Checkpoint::load(path, existing)
    } else {
        Checkpoint::new(path)
    }
}

/// The affiliations among `affiliations` that are still to be resolved, each
/// with its fingerprint: those whose fingerprint is not in `processed`, in
/// their order.
pub open spec fn pending_spec(affiliations: Seq<Seq<char>>, processed: Set<Seq<char>>) -> Seq<
    (Seq<char>, Seq<char>),
>
    decreases affiliations.len(),
{
    if affiliations.len() == 0 {
        seq![]
    } else {
        let before = pending_spec(affiliations.drop_last(), processed);
        let a = affiliations.last();
        if processed.contains(fingerprint(a)) {
            before
        } else {
            before.push((a, fingerprint(a)))
        }
    }
}

/// The texts of units of work: pairs of an affiliation and its fingerprint.
pub open spec fn unit_views(units: Seq<(String, String)>) -> Seq<(Seq<char>, Seq<char>)> {
    units.map_values(|u: (String, String)| (u.0@, u.1@))
}

/// Computes the fingerprint of each affiliation and keeps those that the
/// checkpoint does not hold.
pub fn pending(affiliations: &Vec<String>, checkpoint: &Checkpoint) -> (units: Vec<(String, String)>)
    requires
        checkpoint.wf(),
    ensures
        unit_views(units@) == pending_spec(views(affiliations@), checkpoint@),
{
    let mut units: Vec<(String, String)> = Vec::new();
    let mut i: usize = 0;
    assert(views(affiliations@).take(0) =~= Seq::<Seq<char>>::empty());
    assert(unit_views(units@) =~= Seq::<(Seq<char>, Seq<char>)>::empty());
    while i < affiliations.len()
        invariant
            i <= affiliations.len(),
            checkpoint.wf(),
            unit_views(units@) == pending_spec(views(affiliations@).take(i as int), checkpoint@),
        decreases affiliations.len() - i,
    {
        let ghost upto = views(affiliations@).take(i as int + 1);
        assert(upto.drop_last() =~= views(affiliations@).take(i as int));
        assert(upto.last() == affiliations@[i as int]@);
        let affiliation = &affiliations[i];
        let hash = hash_affiliation(affiliation.as_str());
        if !checkpoint.is_processed(hash.as_str()) {
            let ghost before = units@;
            let unit = (affiliation.clone(), hash);
            units.push(unit);
            assert(unit_views(units@) =~= unit_views(before).push((unit.0@, unit.1@)));
        }
        i = i + 1;
    }
    assert(views(affiliations@).take(affiliations.len() as int) =~= views(affiliations@));
    units
}

/// What is pending of a list is what is pending of its front followed by what
/// is pending of its back.
pub proof fn lemma_pending_concat(a: Seq<Seq<char>>, b: Seq<Seq<char>>, processed: Set<Seq<char>>)
    ensures
        pending_spec(a + b, processed) == pending_spec(a, processed) + pending_spec(b, processed),
    decreases b.len(),
{
    if b.len() == 0 {
        assert(a + b =~= a);
        assert(pending_spec(a, processed) + pending_spec(b, processed) =~= pending_spec(
            a,
            processed,
        ));
    } else {
        assert((a + b).drop_last() =~= a + b.drop_last());
        assert((a + b).last() == b.last());
        lemma_pending_concat(a, b.drop_last(), processed);
        let front = pending_spec(a, processed);
        let back = pending_spec(b.drop_last(), processed);
        let unit = (b.last(), fingerprint(b.last()));
        assert((front + back).push(unit) =~= front + back.push(unit));
    }
}

/// Nothing is pending of a list whose fingerprints are all processed.
pub proof fn lemma_nothing_pending(affiliations: Seq<Seq<char>>, processed: Set<Seq<char>>)
    requires
        forall|i: int|
            0 <= i < affiliations.len() ==> processed.contains(
                fingerprint(#[trigger] affiliations[i]),
            ),
    ensures
        pending_spec(affiliations, processed) == Seq::<(Seq<char>, Seq<char>)>::empty(),
    decreases affiliations.len(),
{
    if affiliations.len() > 0 {
        let front = affiliations.drop_last();
        assert forall|i: int| 0 <= i < front.len() implies processed.contains(
            fingerprint(#[trigger] front[i]),
        ) by {
            assert(front[i] == affiliations[i]);
        }
        lemma_nothing_pending(front, processed);
        assert(processed.contains(fingerprint(affiliations[affiliations.len() - 1])));
    }
}

/// Every pending unit pairs an affiliation of the list with its fingerprint.
pub proof fn lemma_pending_members(affiliations: Seq<Seq<char>>, processed: Set<Seq<char>>, i: int)
    requires
        0 <= i < affiliations.len(),
    ensures
        processed.contains(fingerprint(affiliations[i])) || pending_spec(
            affiliations,
            processed,
        ).contains((affiliations[i], fingerprint(affiliations[i]))),
    decreases affiliations.len(),
{
    let front = affiliations.drop_last();
    let before = pending_spec(front, processed);
    let all = pending_spec(affiliations, processed);
    if i == affiliations.len() - 1 {
        if !processed.contains(fingerprint(affiliations[i])) {
            assert(all[before.len() as int] == (affiliations[i], fingerprint(affiliations[i])));
        }
    } else {
        lemma_pending_members(front, processed, i);
        assert(front[i] == affiliations[i]);
        if !processed.contains(fingerprint(affiliations[i])) {
            let k = choose|k: int|
                0 <= k < before.len() && before[k] == (affiliations[i], fingerprint(affiliations[i]));
            assert(all[k] == before[k]);
        }
    }
}

/// Resuming does not repeat work. Let a run over `inputs` start from the
/// checkpoint `processed` and end with the checkpoint `after`, which holds
/// what `processed` held and the fingerprint of every unit that was pending.
/// Then a run over `inputs` followed by `added`, resumed from `after`, has
/// nothing pending of `inputs`: its units are those that `added` alone gives.
pub proof fn lemma_resume_skips_processed(
    inputs: Seq<Seq<char>>,
    added: Seq<Seq<char>>,
    processed: Set<Seq<char>>,
    after: Set<Seq<char>>,
)
    requires
        processed.subset_of(after),
        forall|k: int|
            0 <= k < pending_spec(inputs, processed).len() ==> after.contains(
                (#[trigger] pending_spec(inputs, processed)[k]).1,
            ),
    ensures
        pending_spec(inputs, after) == Seq::<(Seq<char>, Seq<char>)>::empty(),
        pending_spec(inputs + added, after) == pending_spec(added, after),
{
    assert forall|i: int| 0 <= i < inputs.len() implies after.contains(
        fingerprint(#[trigger] inputs[i]),
    ) by {
        lemma_pending_members(inputs, processed, i);
        if !processed.contains(fingerprint(inputs[i])) {
            let units = pending_spec(inputs, processed);
            let k = choose|k: int|
                0 <= k < units.len() && units[k] == (inputs[i], fingerprint(inputs[i]));
            assert(after.contains(units[k].1));
        }
    }
    lemma_nothing_pending(inputs, after);
    lemma_pending_concat(inputs, added, after);
    assert(pending_spec(inputs, after) + pending_spec(added, after) =~= pending_spec(added, after));
}

/// One affiliation added to a finished list gives a resumed run exactly one
/// unit of work, for that affiliation, unless its fingerprint is processed
/// already.
pub proof fn lemma_resume_one_added(
    inputs: Seq<Seq<char>>,
    added: Seq<char>,
    processed: Set<Seq<char>>,
    after: Set<Seq<char>>,
)
    requires
        processed.subset_of(after),
        forall|k: int|
            0 <= k < pending_spec(inputs, processed).len() ==> after.contains(
                (#[trigger] pending_spec(inputs, processed)[k]).1,
            ),
        !after.contains(fingerprint(added)),
    ensures
        pending_spec(inputs.push(added), after) == seq![(added, fingerprint(added))],
{
    lemma_resume_skips_processed(inputs, seq![added], processed, after);
    assert(inputs + seq![added] =~= inputs.push(added));
    let one = seq![added];
    assert(one.drop_last() =~= Seq::<Seq<char>>::empty());
    assert(pending_spec(one.drop_last(), after) =~= Seq::<(Seq<char>, Seq<char>)>::empty());
    assert(pending_spec(one, after) =~= seq![(added, fingerprint(added))]);
}

/// A record for one of the two output streams.
#[derive(Debug, Clone)]
pub enum SinkRecord {
    /// For the stream of resolved affiliations.
    Matched(RorMatch),
    /// For the stream of failures, which also takes the affiliations that the
    /// registry had no match for.
    Failed(RorMatchFailed),
}

impl SinkRecord {
    /// The fingerprint that the record is about.
    pub open spec fn hash(&self) -> Seq<char> {
        match self {
            SinkRecord::Matched(m) => m.affiliation_hash@,
            SinkRecord::Failed(f) => f.affiliation_hash@,
        }
    }

    /// The fingerprint that the record is about.
    pub fn affiliation_hash(&self) -> (r: &str)
        ensures
            r@ == self.hash(),
    {
        match self {
            SinkRecord::Matched(m) => m.affiliation_hash.as_str(),
            SinkRecord::Failed(f) => f.affiliation_hash.as_str(),
        }
    }
}

/// The reason that is recorded where the registry had no match.
pub open spec fn no_match_reason() -> Seq<char> {
    "no match found"@
}

/// The reason that a failure record gives for a lookup that ended without an
/// identifier.
pub open spec fn failure_reason(resolution: Resolution) -> Seq<char> {
    match resolution {
        Resolution::Failed(error) => error.message_text(),
        _ => no_match_reason(),
    }
}

/// The record to write for a lookup of `affiliation` that ended with
/// `resolution`: a match record for an identifier, else a failure record
/// with the reason. An affiliation without match is recorded as a failure.
pub fn outcome_record(affiliation: String, hash: String, resolution: Resolution) -> (record: SinkRecord)
    ensures
        resolution matches Resolution::Matched(id) ==> record == SinkRecord::Matched(
            RorMatch { affiliation, affiliation_hash: hash, ror_id: id },
        ),
        !(resolution is Matched) ==> {
            &&& record matches SinkRecord::Failed(failed)
            &&& failed.affiliation == affiliation
            &&& failed.affiliation_hash == hash
            &&& failed.error@ == failure_reason(resolution)
        },
{
    match resolution {
        Resolution::Matched(ror_id) => SinkRecord::Matched(
            RorMatch { affiliation, affiliation_hash: hash, ror_id },
        ),
        Resolution::NotMatched => SinkRecord::Failed(
            RorMatchFailed { affiliation, affiliation_hash: hash, error: "no match found".to_owned() },
        ),
        Resolution::Failed(error) => SinkRecord::Failed(
            RorMatchFailed { affiliation, affiliation_hash: hash, error: error.message() },
        ),
    }
}

} // verus!
