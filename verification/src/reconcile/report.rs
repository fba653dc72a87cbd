//! What the tallies of existing assignments give: the aggregated counts, and
//! the disagreements.

use vstd::prelude::*;
use vstd::hash_map::StringHashMap;
use crate::reconcile::tally::{HashTally, Tallies, TallyView};
use crate::text::str_eq;
use crate::{
    AggregatedView, Disagreement, DisagreementView, ExistingAssignmentAggregated, RorIdCount,
    RorIdCountView,
};

verus! {

/// The display name of the organization `id`, or `Unknown` where the data
/// dump does not hold it.
pub open spec fn known_name(names: Map<Seq<char>, String>, id: Seq<char>) -> Seq<char> {
    if names.contains_key(id) {
        names[id]@
    } else {
        "Unknown"@
    }
}

/// The affiliation string that was seen first for the fingerprint `hash`, or
/// the empty string where none was.
pub open spec fn known_affiliation(strings: Map<Seq<char>, String>, hash: Seq<char>) -> Seq<char> {
    if strings.contains_key(hash) {
        strings[hash]@
    } else {
        Seq::<char>::empty()
    }
}

/// The display name of the organization `id`.
pub fn ror_name(names: &StringHashMap<String>, id: &str) -> (name: String)
    ensures
        name@ == known_name(names@, id@),
{
    match names.get(id) {
        Some(name) => name.clone(),
        None => "Unknown".to_owned(),
    }
}

/// The affiliation string that was seen first for the fingerprint `hash`.
pub fn affiliation_string(strings: &StringHashMap<String>, hash: &str) -> (affiliation: String)
    ensures
        affiliation@ == known_affiliation(strings@, hash@),
{
    match strings.get(hash) {
        Some(affiliation) => affiliation.clone(),
        None => String::new(),
    }
}

/// What a sequence of aggregated counts holds, in order.
pub open spec fn aggregated_views(rows: Seq<ExistingAssignmentAggregated>) -> Seq<AggregatedView> {
    rows.map_values(|r: ExistingAssignmentAggregated| r@)
}

/// What a sequence of identifier counts holds, in order.
pub open spec fn id_count_views(rows: Seq<RorIdCount>) -> Seq<RorIdCountView> {
    rows.map_values(|r: RorIdCount| r@)
}

/// What a sequence of disagreements holds, in order.
pub open spec fn disagreement_views(rows: Seq<Disagreement>) -> Seq<DisagreementView> {
    rows.map_values(|r: Disagreement| r@)
}

/// The aggregated counts of one affiliation: one row for each identifier.
pub open spec fn aggregated_rows(
    tally: TallyView,
    strings: Map<Seq<char>, String>,
    names: Map<Seq<char>, String>,
) -> Seq<AggregatedView> {
    tally.counts.map_values(
        |c: (Seq<char>, usize)|
            AggregatedView {
                affiliation: known_affiliation(strings, tally.hash),
                affiliation_hash: tally.hash,
                ror_id: c.0,
                ror_name: known_name(names, c.0),
                count: c.1,
            },
    )
}

/// The aggregated counts of all affiliations, tally by tally.
pub open spec fn aggregated_spec(
    tallies: Seq<TallyView>,
    strings: Map<Seq<char>, String>,
    names: Map<Seq<char>, String>,
) -> Seq<AggregatedView>
    decreases tallies.len(),
{
    if tallies.len() == 0 {
        seq![]
    } else {
        aggregated_spec(tallies.drop_last(), strings, names) + aggregated_rows(
            tallies.last(),
            strings,
            names,
        )
    }
}

/// The identifiers of one affiliation with their names and counts.
pub open spec fn id_counts(tally: TallyView, names: Map<Seq<char>, String>) -> Seq<RorIdCountView> {
    tally.counts.map_values(
        |c: (Seq<char>, usize)|
            RorIdCountView { ror_id: c.0, ror_name: known_name(names, c.0), count: c.1 },
    )
}

/// The disagreements between the registry's answer `matched` and the
/// identifiers `counts` that records carry: one for each identifier that
/// differs from the answer.
pub open spec fn match_rows(
    hash: Seq<char>,
    affiliation: Seq<char>,
    counts: Seq<(Seq<char>, usize)>,
    names: Map<Seq<char>, String>,
    matched: Seq<char>,
) -> Seq<DisagreementView>
    decreases counts.len(),
{
    if counts.len() == 0 {
        seq![]
    } else {
        let before = match_rows(hash, affiliation, counts.drop_last(), names, matched);
        let c = counts.last();
        if c.0 != matched {
            before.push(
                DisagreementView::Match {
                    affiliation,
                    affiliation_hash: hash,
                    existing_ror_id: c.0,
                    existing_ror_name: known_name(names, c.0),
                    existing_count: c.1,
                    matched_ror_id: matched,
                    matched_ror_name: known_name(names, matched),
                },
            )
        } else {
            before
        }
    }
}

/// The disagreement among the records themselves about one affiliation:
/// there is one where they carry more than one identifier for it.
pub open spec fn user_rows(
    tally: TallyView,
    strings: Map<Seq<char>, String>,
    names: Map<Seq<char>, String>,
) -> Seq<DisagreementView> {
    if tally.counts.len() > 1 {
        seq![
            DisagreementView::User {
                affiliation: known_affiliation(strings, tally.hash),
                affiliation_hash: tally.hash,
                ror_ids: id_counts(tally, names),
            },
        ]
    } else {
        seq![]
    }
}

/// The disagreements about one affiliation: that among the records, then
/// those with the registry's answer, if it gave one.
pub open spec fn tally_disagreements(
    tally: TallyView,
    strings: Map<Seq<char>, String>,
    names: Map<Seq<char>, String>,
    lookup: Map<Seq<char>, String>,
) -> Seq<DisagreementView> {
    user_rows(tally, strings, names) + if lookup.contains_key(tally.hash) {
        match_rows(
            tally.hash,
            known_affiliation(strings, tally.hash),
            tally.counts,
            names,
            lookup[tally.hash]@,
        )
    } else {
        seq![]
    }
}

/// The disagreements about all affiliations, tally by tally.
pub open spec fn disagreements_spec(
    tallies: Seq<TallyView>,
    strings: Map<Seq<char>, String>,
    names: Map<Seq<char>, String>,
    lookup: Map<Seq<char>, String>,
) -> Seq<DisagreementView>
    decreases tallies.len(),
{
    if tallies.len() == 0 {
        seq![]
    } else {
        disagreements_spec(tallies.drop_last(), strings, names, lookup) + tally_disagreements(
            tallies.last(),
            strings,
            names,
            lookup,
        )
    }
}

/// Appends the aggregated counts of one affiliation to `rows`.
fn push_aggregated(
    rows: &mut Vec<ExistingAssignmentAggregated>,
    tally: &HashTally,
    strings: &StringHashMap<String>,
    names: &StringHashMap<String>,
)
    ensures
        aggregated_views(final(rows)@) == aggregated_views(old(rows)@) + aggregated_rows(
            tally@,
            strings@,
            names@,
        ),
{
    let ghost base = aggregated_views(rows@);
    let ghost target = aggregated_rows(tally@, strings@, names@);
    let affiliation = affiliation_string(strings, tally.hash.as_str());
    let mut j: usize = 0;
    assert(base + target.take(0) =~= base);
    while j < tally.counts.len()
        invariant
            j <= tally.counts.len(),
            target == aggregated_rows(tally@, strings@, names@),
            affiliation@ == known_affiliation(strings@, tally.hash@),
            aggregated_views(rows@) == base + target.take(j as int),
        decreases tally.counts.len() - j,
    {
        let row = ExistingAssignmentAggregated {
            affiliation: affiliation.clone(),
            affiliation_hash: tally.hash.clone(),
            ror_id: tally.counts[j].0.clone(),
            ror_name: ror_name(names, tally.counts[j].0.as_str()),
            count: tally.counts[j].1,
        };
        let ghost before = rows@;
        rows.push(row);
        assert(aggregated_views(rows@) =~= aggregated_views(before).push(row@));
        assert(row@ == target[j as int]);
        assert(base + target.take(j as int + 1) =~= (base + target.take(j as int)).push(
            target[j as int],
        ));
        j = j + 1;
    }
    assert(target.take(tally.counts.len() as int) =~= target);
}

/// The aggregated counts: for each affiliation and each identifier that
/// records carry for it, how many records do.
pub fn aggregated(
    tallies: &Tallies,
    strings: &StringHashMap<String>,
    names: &StringHashMap<String>,
) -> (rows: Vec<ExistingAssignmentAggregated>)
    ensures
        aggregated_views(rows@) == aggregated_spec(tallies@, strings@, names@),
{
    let mut rows: Vec<ExistingAssignmentAggregated> = Vec::new();
    let n = tallies.len();
    let mut i: usize = 0;
    assert(tallies@.take(0) =~= Seq::<TallyView>::empty());
    assert(aggregated_views(rows@) =~= Seq::<AggregatedView>::empty());
    while i < n
        invariant
            i <= n,
            n == tallies@.len(),
            aggregated_views(rows@) == aggregated_spec(tallies@.take(i as int), strings@, names@),
        decreases n - i,
    {
        let ghost upto = tallies@.take(i as int + 1);
        assert(upto.drop_last() =~= tallies@.take(i as int));
        assert(upto.last() == tallies@[i as int]);
        push_aggregated(&mut rows, tallies.get(i), strings, names);
        i = i + 1;
    }
    assert(tallies@.take(n as int) =~= tallies@);
    rows
}

/// The identifiers of one affiliation with their names and counts.
fn collect_id_counts(tally: &HashTally, names: &StringHashMap<String>) -> (rows: Vec<RorIdCount>)
    ensures
        id_count_views(rows@) == id_counts(tally@, names@),
{
    let mut rows: Vec<RorIdCount> = Vec::new();
    let ghost target = id_counts(tally@, names@);
    let mut j: usize = 0;
    assert(id_count_views(rows@) =~= target.take(0));
    while j < tally.counts.len()
        invariant
            j <= tally.counts.len(),
            target == id_counts(tally@, names@),
            id_count_views(rows@) == target.take(j as int),
        decreases tally.counts.len() - j,
    {
        let row = RorIdCount {
            ror_id: tally.counts[j].0.clone(),
            ror_name: ror_name(names, tally.counts[j].0.as_str()),
            count: tally.counts[j].1,
        };
        let ghost before = rows@;
        rows.push(row);
        assert(id_count_views(rows@) =~= id_count_views(before).push(row@));
        assert(row@ == target[j as int]);
        assert(target.take(j as int + 1) =~= target.take(j as int).push(target[j as int]));
        j = j + 1;
    }
    assert(target.take(tally.counts.len() as int) =~= target);
    rows
}

/// Appends the disagreements about one affiliation to `rows`.
fn push_disagreements(
    rows: &mut Vec<Disagreement>,
    tally: &HashTally,
    strings: &StringHashMap<String>,
    names: &StringHashMap<String>,
    lookup: &StringHashMap<String>,
)
    ensures
        disagreement_views(final(rows)@) == disagreement_views(old(rows)@) + tally_disagreements(
            tally@,
            strings@,
            names@,
            lookup@,
        ),
{
    let ghost base = disagreement_views(rows@);
    let affiliation = affiliation_string(strings, tally.hash.as_str());
    if tally.counts.len() > 1 {
        let row = Disagreement::User {
            affiliation: affiliation.clone(),
            affiliation_hash: tally.hash.clone(),
            ror_ids: collect_id_counts(tally, names),
        };
        let ghost before = rows@;
        rows.push(row);
        assert(disagreement_views(rows@) =~= disagreement_views(before).push(row@));
        assert(disagreement_views(rows@) =~= base + user_rows(tally@, strings@, names@));
    } else {
        assert(base + user_rows(tally@, strings@, names@) =~= base);
    }
    let ghost mid = disagreement_views(rows@);
    match lookup.get(tally.hash.as_str()) {
        Some(matched) => {
            let ghost counts = tally@.counts;
            let matched_name = ror_name(names, matched.as_str());
            let mut j: usize = 0;
            assert(counts.take(0) =~= Seq::<(Seq<char>, usize)>::empty());
            assert(mid + Seq::<DisagreementView>::empty() =~= mid);
            while j < tally.counts.len()
                invariant
                    j <= tally.counts.len(),
                    counts == tally@.counts,
                    affiliation@ == known_affiliation(strings@, tally.hash@),
                    matched_name@ == known_name(names@, matched@),
                    disagreement_views(rows@) == mid + match_rows(
                        tally.hash@,
                        affiliation@,
                        counts.take(j as int),
                        names@,
                        matched@,
                    ),
                decreases tally.counts.len() - j,
            {
                let ghost upto = counts.take(j as int + 1);
                assert(upto.drop_last() =~= counts.take(j as int));
                assert(upto.last() == (tally.counts@[j as int].0@, tally.counts@[j as int].1));
                let ghost sofar = match_rows(
                    tally.hash@,
                    affiliation@,
                    counts.take(j as int),
                    names@,
                    matched@,
                );
                if !str_eq(matched.as_str(), tally.counts[j].0.as_str()) {
                    let row = Disagreement::Match {
                        affiliation: affiliation.clone(),
                        affiliation_hash: tally.hash.clone(),
                        existing_ror_id: tally.counts[j].0.clone(),
                        existing_ror_name: ror_name(names, tally.counts[j].0.as_str()),
                        existing_count: tally.counts[j].1,
                        matched_ror_id: matched.clone(),
                        matched_ror_name: matched_name.clone(),
                    };
                    let ghost before = rows@;
                    rows.push(row);
                    assert(disagreement_views(rows@) =~= disagreement_views(before).push(row@));
                    assert((mid + sofar).push(row@) =~= mid + sofar.push(row@));
                }
                j = j + 1;
            }
            assert(counts.take(tally.counts.len() as int) =~= counts);
            assert(disagreement_views(rows@) =~= base + tally_disagreements(
                tally@,
                strings@,
                names@,
                lookup@,
            ));
        },
        None => {
            assert(disagreement_views(rows@) =~= base + tally_disagreements(
                tally@,
                strings@,
                names@,
                lookup@,
            ));
        },
    }
}

/// The disagreements: for each affiliation, whether records carry more than
/// one identifier for it, and which of their identifiers differ from the
/// registry's answer.
pub fn disagreements(
    tallies: &Tallies,
    strings: &StringHashMap<String>,
    names: &StringHashMap<String>,
    lookup: &StringHashMap<String>,
) -> (rows: Vec<Disagreement>)
    ensures
        disagreement_views(rows@) == disagreements_spec(tallies@, strings@, names@, lookup@),
{
    let mut rows: Vec<Disagreement> = Vec::new();
    let n = tallies.len();
    let mut i: usize = 0;
    assert(tallies@.take(0) =~= Seq::<TallyView>::empty());
    assert(disagreement_views(rows@) =~= Seq::<DisagreementView>::empty());
    while i < n
        invariant
            i <= n,
            n == tallies@.len(),
            disagreement_views(rows@) == disagreements_spec(
                tallies@.take(i as int),
                strings@,
                names@,
                lookup@,
            ),
        decreases n - i,
    {
        let ghost upto = tallies@.take(i as int + 1);
        assert(upto.drop_last() =~= tallies@.take(i as int));
        assert(upto.last() == tallies@[i as int]);
        push_disagreements(&mut rows, tallies.get(i), strings, names, lookup);
        i = i + 1;
    }
    assert(tallies@.take(n as int) =~= tallies@);
    rows
}

} // verus!
