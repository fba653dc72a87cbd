//! Joining the resolved identifiers back onto the records.
//!
//! The records come one by one. A record that already carries an identifier
//! is reported as an existing assignment and counted. The other records are
//! grouped by their identifier of the work, in the order in which they come,
//! and each group gives one enriched record.

use vstd::prelude::*;
use vstd::hash_map::StringHashMap;
use crate::text::str_eq;
use crate::{
    AuthorAffiliationRecord, Disagreement, EnrichedRecord, ExistingAssignment,
    ExistingAssignmentAggregated, ExistingAssignmentView, RorMatch,
};

pub mod group;
pub mod order;
pub mod report;
pub mod ror_data;
pub mod tally;

pub use group::process_doi_group;
pub use ror_data::load_ror_data;
use group::enriched_group;
use report::{
    aggregated, aggregated_spec, aggregated_views, disagreement_views, disagreements,
    disagreements_spec, known_name, ror_name,
};
use tally::{tallied, Tallies, TallyView};

verus! {

/// What a reconciliation is given by its caller.
#[derive(Debug, Clone)]
pub struct ReconcileArgs {
    /// The directory that holds the affiliation records and the matches.
    pub input: String,
    /// The file that receives the enriched records.
    pub output: String,
    /// The file that holds the registry's data dump.
    pub ror_data: String,
}

/// The resolved identifiers of `matches` by fingerprint. Of two matches with
/// one fingerprint the later one counts.
pub open spec fn match_lookup(matches: Seq<RorMatch>) -> Map<Seq<char>, String>
    decreases matches.len(),
{
    if matches.len() == 0 {
        Map::empty()
    } else {
        match_lookup(matches.drop_last()).insert(
            matches.last().affiliation_hash@,
            matches.last().ror_id,
        )
    }
}

/// Builds the lookup from fingerprint to resolved identifier.
pub fn load_ror_matches(matches: Vec<RorMatch>) -> (lookup: StringHashMap<String>)
    ensures
        lookup@ == match_lookup(matches@),
{
    let mut lookup: StringHashMap<String> = StringHashMap::new();
    let mut i: usize = 0;
    assert(matches@.take(0) =~= Seq::<RorMatch>::empty());
    while i < matches.len()
        invariant
            i <= matches.len(),
            lookup@ == match_lookup(matches@.take(i as int)),
        decreases matches.len() - i,
    {
        let ghost upto = matches@.take(i as int + 1);
        assert(upto.drop_last() =~= matches@.take(i as int));
        assert(upto.last() == matches@[i as int]);
        lookup.insert(matches[i].affiliation_hash.clone(), matches[i].ror_id.clone());
        i = i + 1;
    }
    assert(matches@.take(matches.len() as int) =~= matches@);
    lookup
}

/// The existing assignment that `record` reports, which carries the
/// identifier `ror_id`.
pub open spec fn existing_assignment_of(
    record: AuthorAffiliationRecord,
    ror_id: Seq<char>,
    names: Map<Seq<char>, String>,
) -> ExistingAssignmentView {
    ExistingAssignmentView {
        doi: record.doi@,
        author_idx: record.author_idx,
        author_name: record.author_name@,
        affiliation: record.affiliation@,
        ror_id,
        ror_name: known_name(names, ror_id),
    }
}

/// `strings` after a record with the fingerprint `hash` and the affiliation
/// `affiliation`: the string that came first for a fingerprint stays.
pub open spec fn remembered(strings: Map<Seq<char>, String>, hash: Seq<char>, affiliation: String) -> Map<
    Seq<char>,
    String,
> {
    if strings.contains_key(hash) {
        strings
    } else {
        strings.insert(hash, affiliation)
    }
}

/// What one record gives at once.
pub struct Fed {
    /// The existing assignment that the record reports.
    pub existing: Option<ExistingAssignment>,
    /// The enriched record of the group that the record closes.
    pub enriched: Option<EnrichedRecord>,
}

/// The state of a reconciliation.
pub struct Reconciler {
    ror_names: StringHashMap<String>,
    ror_lookup: StringHashMap<String>,
    strings: StringHashMap<String>,
    tallies: Tallies,
    current_doi: Option<String>,
    group: Vec<AuthorAffiliationRecord>,
    fed: usize,
    enriched: usize,
}

impl Reconciler {
    /// The display names of the organizations.
    pub closed spec fn names(&self) -> Map<Seq<char>, String> {
        self.ror_names@
    }

    /// The resolved identifiers by fingerprint.
    pub closed spec fn lookup(&self) -> Map<Seq<char>, String> {
        self.ror_lookup@
    }

    /// The affiliation string that came first for each fingerprint.
    pub closed spec fn affiliation_strings(&self) -> Map<Seq<char>, String> {
        self.strings@
    }

    /// The counts of the existing assignments.
    pub closed spec fn counts(&self) -> Seq<TallyView> {
        self.tallies@
    }

    /// The identifier of the work that the open group belongs to.
    pub closed spec fn open_doi(&self) -> Option<Seq<char>> {
        crate::optional_text(self.current_doi)
    }

    /// The records of the open group.
    pub closed spec fn open_group(&self) -> Seq<AuthorAffiliationRecord> {
        self.group@
    }

    /// The number of records taken in.
    pub closed spec fn fed_count(&self) -> nat {
        self.fed as nat
    }

    /// The number of existing assignments reported.
    pub closed spec fn existing_count(&self) -> nat {
        self.tallies.total()
    }

    /// The number of enriched records given.
    pub closed spec fn enriched_count(&self) -> nat {
        self.enriched as nat
    }

    /// The part of well-formedness that concerns the representation.
    pub closed spec fn consistent(&self) -> bool {
        self.tallies.wf()
    }

    /// Well-formedness: an open group belongs to a work, and no more was
    /// given out than was taken in.
    pub open spec fn wf(&self) -> bool {
        &&& self.consistent()
        &&& self.open_group().len() > 0 ==> self.open_doi() is Some
        &&& self.existing_count() + self.enriched_count() + self.open_group().len()
            <= self.fed_count()
    }

    /// A reconciliation that has taken in nothing yet.
    pub fn new(ror_names: StringHashMap<String>, ror_lookup: StringHashMap<String>) -> (r: Reconciler)
        ensures
            r.wf(),
            r.names() == ror_names@,
            r.lookup() == ror_lookup@,
            r.affiliation_strings() == Map::<Seq<char>, String>::empty(),
            r.counts() == Seq::<TallyView>::empty(),
            r.open_doi() is None,
            r.open_group() == Seq::<AuthorAffiliationRecord>::empty(),
            r.fed_count() == 0,
            r.existing_count() == 0,
            r.enriched_count() == 0,
    {
        Reconciler {
            ror_names,
            ror_lookup,
            strings: StringHashMap::new(),
            tallies: Tallies::new(),
            current_doi: None,
            group: Vec::new(),
            fed: 0,
            enriched: 0,
        }
    }

    /// The number of records taken in.
    pub fn records_fed(&self) -> (n: usize)
        ensures
            n == self.fed_count(),
    {
        self.fed
    }

    /// The number of existing assignments reported.
    pub fn records_existing(&self) -> (n: usize)
        ensures
            n == self.existing_count(),
    {
        self.tallies.count()
    }

    /// The number of enriched records given.
    pub fn records_enriched(&self) -> (n: usize)
        ensures
            n == self.enriched_count(),
    {
        self.enriched
    }

    /// Whether `record` ends the open group: whether there is one, and the
    /// record belongs to another work.
    pub open spec fn closes_group(&self, record: AuthorAffiliationRecord) -> bool {
        self.open_group().len() > 0 && self.open_doi() != Some(record.doi@)
    }

    /// Takes in one record.
    ///
    /// A record that carries an identifier is reported as an existing
    /// assignment and counted; the open group is left as it is. Any other
    /// record joins the open group, after ending it and giving its enriched
    /// record where the record belongs to another work.
    pub fn feed(&mut self, record: AuthorAffiliationRecord) -> (out: Fed)
        requires
            old(self).wf(),
            old(self).fed_count() < usize::MAX,
        ensures
            final(self).wf(),
            final(self).names() == old(self).names(),
            final(self).lookup() == old(self).lookup(),
            final(self).fed_count() == old(self).fed_count() + 1,
            final(self).affiliation_strings() == remembered(
                old(self).affiliation_strings(),
                record.affiliation_hash@,
                record.affiliation,
            ),
            record.existing_ror_id matches Some(id) ==> {
                &&& out.enriched is None
                &&& out.existing matches Some(a)
                &&& a@ == existing_assignment_of(record, id@, old(self).names())
                &&& final(self).counts() == tallied(old(self).counts(), record.affiliation_hash@, id@)
                &&& final(self).existing_count() == old(self).existing_count() + 1
                &&& final(self).enriched_count() == old(self).enriched_count()
                &&& final(self).open_doi() == old(self).open_doi()
                &&& final(self).open_group() == old(self).open_group()
            },
            record.existing_ror_id is None ==> {
                &&& out.existing is None
                &&& final(self).counts() == old(self).counts()
                &&& final(self).existing_count() == old(self).existing_count()
                &&& final(self).open_doi() == Some(record.doi@)
                &&& final(self).enriched_count() == old(self).enriched_count() + if out.enriched is Some {
                    1nat
                } else {
                    0nat
                }
            },
            record.existing_ror_id is None && old(self).closes_group(record) ==> {
                &&& crate::reconcile::enriched_view(out.enriched) == enriched_group(
                    old(self).open_doi()->0,
                    old(self).open_group(),
                    old(self).lookup(),
                )
                &&& final(self).open_group() == seq![record]
            },
            record.existing_ror_id is None && !old(self).closes_group(record) ==> {
                &&& out.enriched is None
                &&& final(self).open_group() == old(self).open_group().push(record)
            },
    {
        self.fed = self.fed + 1;
        if !self.strings.contains_key(record.affiliation_hash.as_str()) {
            self.strings.insert(record.affiliation_hash.clone(), record.affiliation.clone());
        }
        match &record.existing_ror_id {
            Some(id) => {
                let assignment = ExistingAssignment {
                    doi: record.doi.clone(),
                    author_idx: record.author_idx,
                    author_name: record.author_name.clone(),
                    affiliation: record.affiliation.clone(),
                    ror_id: id.clone(),
                    ror_name: ror_name(&self.ror_names, id.as_str()),
                };
                self.tallies.add(record.affiliation_hash.as_str(), id.as_str());
                Fed { existing: Some(assignment), enriched: None }
            },
            None => {
                let same = match &self.current_doi {
                    Some(doi) => str_eq(doi.as_str(), record.doi.as_str()),
                    None => false,
                };
                let mut enriched: Option<EnrichedRecord> = None;
                if !same && self.group.len() > 0 {
                    let doi = match &self.current_doi {
                        Some(doi) => doi.as_str(),
                        None => "",
                    };
                    enriched = process_doi_group(doi, self.group.as_slice(), &self.ror_lookup);
                    if enriched.is_some() {
                        self.enriched = self.enriched + 1;
                    }
                    self.group.clear();
                }
                self.current_doi = Some(record.doi.clone());
                self.group.push(record);
                Fed { existing: None, enriched }
            },
        }
    }

    /// Ends the open group, if there is one, and gives its enriched record.
    pub fn finish(&mut self) -> (enriched: Option<EnrichedRecord>)
        requires
            old(self).wf(),
        ensures
            final(self).wf(),
            final(self).names() == old(self).names(),
            final(self).lookup() == old(self).lookup(),
            final(self).fed_count() == old(self).fed_count(),
            final(self).affiliation_strings() == old(self).affiliation_strings(),
            final(self).counts() == old(self).counts(),
            final(self).existing_count() == old(self).existing_count(),
            final(self).open_doi() == old(self).open_doi(),
            final(self).open_group() == Seq::<AuthorAffiliationRecord>::empty(),
            old(self).open_group().len() == 0 ==> enriched is None,
            old(self).open_group().len() > 0 ==> crate::reconcile::enriched_view(enriched)
                == enriched_group(
                old(self).open_doi()->0,
                old(self).open_group(),
                old(self).lookup(),
            ),
            final(self).enriched_count() == old(self).enriched_count() + if enriched is Some {
                1nat
            } else {
                0nat
            },
    {
        if self.group.len() == 0 {
            return None;
        }
        let doi = match &self.current_doi {
            Some(doi) => doi.as_str(),
            None => "",
        };
        let enriched = process_doi_group(doi, self.group.as_slice(), &self.ror_lookup);
        if enriched.is_some() {
            self.enriched = self.enriched + 1;
        }
        self.group.clear();
        enriched
    }

    /// The aggregated counts of the existing assignments taken in so far.
    pub fn aggregated(&self) -> (rows: Vec<ExistingAssignmentAggregated>)
        ensures
            aggregated_views(rows@) == aggregated_spec(
                self.counts(),
                self.affiliation_strings(),
                self.names(),
            ),
    {
        aggregated(&self.tallies, &self.strings, &self.ror_names)
    }

    /// The disagreements that the existing assignments taken in so far show.
    pub fn disagreements(&self) -> (rows: Vec<Disagreement>)
        ensures
            disagreement_views(rows@) == disagreements_spec(
                self.counts(),
                self.affiliation_strings(),
                self.names(),
                self.lookup(),
            ),
    {
        disagreements(&self.tallies, &self.strings, &self.ror_names, &self.ror_lookup)
    }
}

/// What an optional enriched record holds.
pub open spec fn enriched_view(enriched: Option<EnrichedRecord>) -> Option<crate::EnrichedRecordView> {
    match enriched {
        Some(e) => Some(e@),
        None => None,
    }
}

} // verus!
