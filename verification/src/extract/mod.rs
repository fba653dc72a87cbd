//! Extraction of affiliation strings from bibliographic records.

use vstd::prelude::*;
use crate::unique::{extended, UniqueStrings};
use crate::{record_views, AuthorAffiliationRecord, AuthorAffiliationView};

pub mod json;
pub mod parser;

pub use json::JsonValue;
pub use parser::parse_affiliations;
use parser::parsed_affiliations;

verus! {

/// What an extraction is given by its caller.
#[derive(Debug, Clone)]
pub struct ExtractArgs {
    /// The directory that holds the compressed record files.
    pub input: String,
    /// The directory that receives the results.
    pub output: String,
    /// The number of worker threads; zero asks for one per processor.
    pub threads: usize,
    /// The number of records that are handed on together.
    pub batch_size: usize,
}

/// The number of processors of this machine.
///
/// Trusted: calls `num_cpus::get`, which counts the logical processors that
/// this process may use. The number depends on the machine; its
/// documentation promises that it is at least one, and the contract claims
/// no more.
#[verifier::external_body]
fn available_processors() -> (n: usize)
    ensures
        n >= 1,
{
    num_cpus::get()
}

/// The number of worker threads to use: the number asked for, or one per
/// processor where zero is asked for.
pub fn worker_count(requested: usize, processors: usize) -> (n: usize)
    ensures
        n == if requested > 0 {
            requested
        } else {
            processors
        },
{
    if requested > 0 {
        requested
    } else {
        processors
    }
}

/// The number of worker threads to use on this machine: the number asked
/// for, or one per processor of this machine where zero is asked for. There
/// is always at least one worker.
pub fn worker_count_here(requested: usize) -> (n: usize)
    ensures
        requested > 0 ==> n == requested,
        requested == 0 ==> n >= 1,
{
    worker_count(requested, available_processors())
}

/// The number of batches that may wait to be written: four for each worker.
pub fn queue_capacity(workers: usize) -> (n: usize)
    requires
        workers * 4 <= usize::MAX,
    ensures
        n == workers * 4,
{
    workers * 4
}

/// The affiliation strings of `records`, in order.
pub open spec fn affiliation_names(records: Seq<AuthorAffiliationView>) -> Seq<Seq<char>> {
    records.map_values(|r: AuthorAffiliationView| r.affiliation)
}

/// Adds the affiliation strings of `found` to the set of distinct strings.
pub fn note_affiliations(unique: &mut UniqueStrings, found: &Vec<AuthorAffiliationRecord>)
    requires
        old(unique).wf(),
    ensures
        final(unique).wf(),
        final(unique).entries() == extended(
            old(unique).entries(),
            affiliation_names(record_views(found@)),
        ),
{
    let ghost names = affiliation_names(record_views(found@));
    let mut i: usize = 0;
    assert(names.take(0) =~= Seq::<Seq<char>>::empty());
    while i < found.len()
        invariant
            i <= found.len(),
            names == affiliation_names(record_views(found@)),
            unique.wf(),
            unique.entries() == extended(old(unique).entries(), names.take(i as int)),
        decreases found.len() - i,
    {
        let ghost upto = names.take(i as int + 1);
        assert(upto.drop_last() =~= names.take(i as int));
        assert(upto.last() == found@[i as int].affiliation@);
        unique.insert(found[i].affiliation.as_str());
        i = i + 1;
    }
    assert(names.take(found.len() as int) =~= names);
}

/// Puts `found` behind what `batch` holds. Once the batch holds `batch_size`
/// records or more it is handed out whole, and an empty one is left.
pub fn add_to_batch(
    batch: &mut Vec<AuthorAffiliationRecord>,
    found: Vec<AuthorAffiliationRecord>,
    batch_size: usize,
) -> (full: Option<Vec<AuthorAffiliationRecord>>)
    ensures
        old(batch)@.len() + found@.len() >= batch_size ==> {
            &&& full matches Some(records)
            &&& records@ == old(batch)@ + found@
            &&& final(batch)@.len() == 0
        },
        old(batch)@.len() + found@.len() < batch_size ==> {
            &&& full is None
            &&& final(batch)@ == old(batch)@ + found@
        },
{
    let mut found = found;
    batch.append(&mut found);
    if batch.len() >= batch_size {
        let mut full: Vec<AuthorAffiliationRecord> = Vec::new();
        full.append(batch);
        Some(full)
    } else {
        None
    }
}

/// Takes in one record of the input: finds its affiliations, adds their
/// strings to the set of distinct strings and the affiliations to the batch,
/// and hands out the batch once it is full.
pub fn absorb_record(
    record: &JsonValue,
    unique: &mut UniqueStrings,
    batch: &mut Vec<AuthorAffiliationRecord>,
    batch_size: usize,
) -> (full: Option<Vec<AuthorAffiliationRecord>>)
    requires
        old(unique).wf(),
    ensures
        final(unique).wf(),
        final(unique).entries() == extended(
            old(unique).entries(),
            affiliation_names(parsed_affiliations(*record)),
        ),
        ({
            let all = record_views(old(batch)@) + parsed_affiliations(*record);
            if all.len() >= batch_size {
                &&& full matches Some(records)
                &&& record_views(records@) == all
                &&& final(batch)@.len() == 0
            } else {
                &&& full is None
                &&& record_views(final(batch)@) == all
            }
        }),
{
    let found = parse_affiliations(record);
    note_affiliations(unique, &found);
    assert(record_views(old(batch)@ + found@) =~= record_views(old(batch)@) + record_views(found@));
    add_to_batch(batch, found, batch_size)
}

} // verus!
