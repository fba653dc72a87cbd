//! The enriched record of one group of affiliation records.

use vstd::prelude::*;
use vstd::hash_map::StringHashMap;
use vstd::std_specs::btree::increasing_seq;
use vstd::std_specs::iter::IteratorSpec;
use std::collections::BTreeMap;
use crate::reconcile::order::{lemma_increasing_is_rising, rising};
use crate::{
    AuthorAffiliationRecord, EnrichedAffiliation, EnrichedAffiliationView, EnrichedCreator,
    EnrichedCreatorView, EnrichedRecord, EnrichedRecordView,
};

verus! {

/// What a sequence of affiliations holds, in order.
pub open spec fn affiliation_views(items: Seq<EnrichedAffiliation>) -> Seq<EnrichedAffiliationView> {
    items.map_values(|a: EnrichedAffiliation| a@)
}

/// What a sequence of creators holds, in order.
pub open spec fn creator_views(items: Seq<EnrichedCreator>) -> Seq<EnrichedCreatorView> {
    items.map_values(|c: EnrichedCreator| c@)
}

/// The affiliation of `record` with the identifier `ror_id`.
pub open spec fn enriched_affiliation(record: AuthorAffiliationRecord, ror_id: String) -> EnrichedAffiliationView {
    EnrichedAffiliationView {
        name: record.affiliation@,
        affiliation_identifier: ror_id@,
        affiliation_identifier_scheme: "ROR"@,
        scheme_uri: "https://ror.org"@,
    }
}

/// The resolved affiliations of author number `author`: one for each record
/// of that author whose fingerprint the lookup holds, in the order of the
/// records.
pub open spec fn matched_affiliations(
    records: Seq<AuthorAffiliationRecord>,
    author: usize,
    lookup: Map<Seq<char>, String>,
) -> Seq<EnrichedAffiliationView>
    decreases records.len(),
{
    if records.len() == 0 {
        seq![]
    } else {
        let before = matched_affiliations(records.drop_last(), author, lookup);
        let r = records.last();
        if r.author_idx == author && lookup.contains_key(r.affiliation_hash@) {
            before.push(enriched_affiliation(r, lookup[r.affiliation_hash@]))
        } else {
            before
        }
    }
}

/// The name of author number `author`: that of the first record of that
/// author.
pub open spec fn first_name(records: Seq<AuthorAffiliationRecord>, author: usize) -> Option<Seq<char>>
    decreases records.len(),
{
    if records.len() == 0 {
        None
    } else {
        match first_name(records.drop_last(), author) {
            Some(name) => Some(name),
            None => if records.last().author_idx == author {
                Some(records.last().author_name@)
            } else {
                None
            },
        }
    }
}

/// The creator for author number `author`.
pub open spec fn creator_of(
    records: Seq<AuthorAffiliationRecord>,
    author: usize,
    lookup: Map<Seq<char>, String>,
) -> EnrichedCreatorView {
    EnrichedCreatorView {
        name: match first_name(records, author) {
            Some(name) => name,
            None => Seq::<char>::empty(),
        },
        given_name: None,
        family_name: None,
        affiliation: matched_affiliations(records, author, lookup),
    }
}

/// The creators for the authors with a number below `bound`, by rising
/// number: one for each author with a resolved affiliation.
pub open spec fn creators_below(
    records: Seq<AuthorAffiliationRecord>,
    lookup: Map<Seq<char>, String>,
    bound: nat,
) -> Seq<EnrichedCreatorView>
    decreases bound,
{
    if bound == 0 {
        seq![]
    } else {
        let before = creators_below(records, lookup, (bound - 1) as nat);
        let author = (bound - 1) as usize;
        if matched_affiliations(records, author, lookup).len() > 0 {
            before.push(creator_of(records, author, lookup))
        } else {
            before
        }
    }
}

/// The creators for all authors of `records`.
pub open spec fn creators_of_group(
    records: Seq<AuthorAffiliationRecord>,
    lookup: Map<Seq<char>, String>,
) -> Seq<EnrichedCreatorView> {
    creators_below(records, lookup, (usize::MAX + 1) as nat)
}

/// The enriched record of a group: its creators under the identifier of the
/// group, or nothing where no author has a resolved affiliation.
pub open spec fn enriched_group(
    doi: Seq<char>,
    records: Seq<AuthorAffiliationRecord>,
    lookup: Map<Seq<char>, String>,
) -> Option<EnrichedRecordView> {
    let creators = creators_of_group(records, lookup);
    if creators.len() == 0 {
        None
    } else {
        Some(EnrichedRecordView { doi, creators })
    }
}

/// An author without records has no resolved affiliation.
pub proof fn lemma_absent_author(
    records: Seq<AuthorAffiliationRecord>,
    author: usize,
    lookup: Map<Seq<char>, String>,
)
    requires
        forall|i: int| 0 <= i < records.len() ==> (#[trigger] records[i]).author_idx != author,
    ensures
        matched_affiliations(records, author, lookup).len() == 0,
    decreases records.len(),
{
    if records.len() > 0 {
        let front = records.drop_last();
        assert forall|i: int| 0 <= i < front.len() implies (#[trigger] front[i]).author_idx
            != author by {
            assert(front[i] == records[i]);
        }
        lemma_absent_author(front, author, lookup);
        assert(records[records.len() - 1].author_idx != author);
    }
}

/// Numbers that no record carries add no creator.
pub proof fn lemma_no_author_between(
    records: Seq<AuthorAffiliationRecord>,
    lookup: Map<Seq<char>, String>,
    lo: nat,
    hi: nat,
)
    requires
        lo <= hi <= usize::MAX + 1,
        forall|i: int|
            0 <= i < records.len() ==> !(lo <= (#[trigger] records[i]).author_idx < hi),
    ensures
        creators_below(records, lookup, hi) == creators_below(records, lookup, lo),
    decreases hi - lo,
{
    if lo < hi {
        let author = (hi - 1) as usize;
        lemma_absent_author(records, author, lookup);
        lemma_no_author_between(records, lookup, lo, (hi - 1) as nat);
    }
}

/// Every author of a record has a name.
pub proof fn lemma_author_has_name(records: Seq<AuthorAffiliationRecord>, r: int)
    requires
        0 <= r < records.len(),
    ensures
        first_name(records, records[r].author_idx) is Some,
    decreases records.len(),
{
    if r < records.len() - 1 {
        assert(records.drop_last()[r] == records[r]);
        lemma_author_has_name(records.drop_last(), r);
    }
}

/// No record names an author that has no name.
pub proof fn lemma_nameless_author_is_absent(records: Seq<AuthorAffiliationRecord>, author: usize)
    requires
        first_name(records, author) is None,
    ensures
        forall|i: int| 0 <= i < records.len() ==> (#[trigger] records[i]).author_idx != author,
    decreases records.len(),
{
    if records.len() > 0 {
        let front = records.drop_last();
        lemma_nameless_author_is_absent(front, author);
        assert forall|i: int| 0 <= i < records.len() implies (#[trigger] records[i]).author_idx
            != author by {
            if i < records.len() - 1 {
                assert(front[i] == records[i]);
            }
        }
    }
}

/// The creators for the authors `keys`, in the order of `keys`: one for each
/// of them with a resolved affiliation.
pub open spec fn creators_for(
    records: Seq<AuthorAffiliationRecord>,
    lookup: Map<Seq<char>, String>,
    keys: Seq<usize>,
) -> Seq<EnrichedCreatorView>
    decreases keys.len(),
{
    if keys.len() == 0 {
        seq![]
    } else {
        let before = creators_for(records, lookup, keys.drop_last());
        let author = keys.last();
        if matched_affiliations(records, author, lookup).len() > 0 {
            before.push(creator_of(records, author, lookup))
        } else {
            before
        }
    }
}

/// Where `keys` holds, by rising number, every author below `bound` that a
/// record names, the creators for `keys` are the creators for the authors
/// below `bound`.
pub proof fn lemma_creators_for_keys(
    records: Seq<AuthorAffiliationRecord>,
    lookup: Map<Seq<char>, String>,
    keys: Seq<usize>,
    bound: nat,
)
    requires
        bound <= usize::MAX + 1,
        rising(keys),
        forall|i: int| 0 <= i < keys.len() ==> keys[i] < bound,
        forall|r: int|
            0 <= r < records.len() && (#[trigger] records[r]).author_idx < bound ==> keys.contains(
                records[r].author_idx,
            ),
    ensures
        creators_for(records, lookup, keys) == creators_below(records, lookup, bound),
    decreases keys.len(),
{
    if keys.len() == 0 {
        assert forall|r: int| 0 <= r < records.len() implies !(0 <= (
        #[trigger] records[r]).author_idx < bound) by {
            if records[r].author_idx < bound {
                assert(keys.contains(records[r].author_idx));
            }
        }
        lemma_no_author_between(records, lookup, 0, bound);
    } else {
        let front = keys.drop_last();
        let k = keys.last();
        assert forall|r: int|
            0 <= r < records.len() && (#[trigger] records[r]).author_idx < k implies front.contains(
            records[r].author_idx,
        ) by {
            assert(keys.contains(records[r].author_idx));
            let j = choose|j: int| 0 <= j < keys.len() && keys[j] == records[r].author_idx;
            assert(front[j] == keys[j]);
        }
        assert forall|i: int| 0 <= i < front.len() implies front[i] < k by {
            assert(front[i] == keys[i]);
        }
        assert(rising(front)) by {
            assert forall|i: int, j: int| 0 <= i < j < front.len() implies front[i] < front[j] by {
                assert(front[i] == keys[i] && front[j] == keys[j]);
            }
        }
        lemma_creators_for_keys(records, lookup, front, k as nat);
        assert forall|r: int| 0 <= r < records.len() implies !(k + 1 <= (
        #[trigger] records[r]).author_idx < bound) by {
            if k + 1 <= records[r].author_idx < bound {
                assert(keys.contains(records[r].author_idx));
                let j = choose|j: int| 0 <= j < keys.len() && keys[j] == records[r].author_idx;
                if j < keys.len() - 1 {
                    assert(keys[j] < keys[keys.len() - 1]);
                }
            }
        }
        lemma_no_author_between(records, lookup, (k + 1) as nat, bound);
    }
}

/// What is gathered for one author while the records are read.
struct AuthorData {
    name: String,
    affiliations: Vec<EnrichedAffiliation>,
}

/// Whether `authors` holds exactly the authors that `records` name, each
/// with its name and its resolved affiliations.
spec fn gathered(
    authors: Map<usize, AuthorData>,
    records: Seq<AuthorAffiliationRecord>,
    lookup: Map<Seq<char>, String>,
) -> bool {
    &&& forall|a: usize|
        #![trigger authors.contains_key(a)]
        #![trigger first_name(records, a)]
        authors.contains_key(a) <==> first_name(records, a) is Some
    &&& forall|a: usize| #[trigger]
        authors.contains_key(a) ==> Some(authors[a].name@) == first_name(records, a)
            && affiliation_views(authors[a].affiliations@) == matched_affiliations(
            records,
            a,
            lookup,
        )
}

/// A copy of `items`.
fn copy_affiliations(items: &Vec<EnrichedAffiliation>) -> (out: Vec<EnrichedAffiliation>)
    ensures
        affiliation_views(out@) == affiliation_views(items@),
{
    let mut out: Vec<EnrichedAffiliation> = Vec::new();
    let mut i: usize = 0;
    while i < items.len()
        invariant
            i <= items.len(),
            affiliation_views(out@) == affiliation_views(items@).take(i as int),
        decreases items.len() - i,
    {
        let item = EnrichedAffiliation {
            name: items[i].name.clone(),
            affiliation_identifier: items[i].affiliation_identifier.clone(),
            affiliation_identifier_scheme: items[i].affiliation_identifier_scheme.clone(),
            scheme_uri: items[i].scheme_uri.clone(),
        };
        let ghost before = out@;
        out.push(item);
        assert(item@ == items@[i as int]@);
        assert(affiliation_views(out@) =~= affiliation_views(before).push(item@));
        assert(affiliation_views(items@).take(i as int + 1) =~= affiliation_views(items@).take(
            i as int,
        ).push(items@[i as int]@));
        i = i + 1;
    }
    assert(affiliation_views(items@).take(items.len() as int) =~= affiliation_views(items@));
    out
}

/// Gathers the authors of `records` in a map ordered by author number, each
/// with the name of its first record and its resolved affiliations.
fn gather_authors(
    records: &[AuthorAffiliationRecord],
    ror_lookup: &StringHashMap<String>,
) -> (authors: BTreeMap<usize, AuthorData>)
    ensures
        gathered(authors@, records@, ror_lookup@),
{
    let mut authors: BTreeMap<usize, AuthorData> = BTreeMap::new();
    let mut i: usize = 0;
    assert(records@.take(0) =~= Seq::<AuthorAffiliationRecord>::empty());
    while i < records.len()
        invariant
            i <= records.len(),
            gathered(authors@, records@.take(i as int), ror_lookup@),
        decreases records.len() - i,
    {
        let ghost before = authors@;
        let ghost seen = records@.take(i as int);
        let ghost upto = records@.take(i as int + 1);
        assert(upto.drop_last() =~= seen);
        assert(upto.last() == records@[i as int]);
        let record = &records[i];
        let author = record.author_idx;
        let mut data = match authors.remove(&author) {
            Some(data) => data,
            None => AuthorData { name: record.author_name.clone(), affiliations: Vec::new() },
        };
        proof {
            if !before.contains_key(author) {
                lemma_nameless_author_is_absent(seen, author);
                lemma_absent_author(seen, author, ror_lookup@);
            }
        }
        assert(Some(data.name@) == first_name(upto, author));
        assert(affiliation_views(data.affiliations@) =~= matched_affiliations(
            seen,
            author,
            ror_lookup@,
        ));
        if let Some(ror_id) = ror_lookup.get(record.affiliation_hash.as_str()) {
            let item = EnrichedAffiliation {
                name: record.affiliation.clone(),
                affiliation_identifier: ror_id.clone(),
                affiliation_identifier_scheme: "ROR".to_owned(),
                scheme_uri: "https://ror.org".to_owned(),
            };
            let ghost items = data.affiliations@;
            data.affiliations.push(item);
            assert(affiliation_views(data.affiliations@) =~= affiliation_views(items).push(item@));
        }
        authors.insert(author, data);
        proof {
            assert forall|a: usize|
                #![trigger authors@.contains_key(a)]
                #![trigger first_name(upto, a)]
                authors@.contains_key(a) <==> first_name(upto, a) is Some by {
                if a != author {
                    assert(authors@.contains_key(a) == before.contains_key(a));
                    assert(first_name(upto, a) == first_name(seen, a));
                }
            }
            assert forall|a: usize| #[trigger] authors@.contains_key(a) implies Some(
                authors@[a].name@,
            ) == first_name(upto, a) && affiliation_views(authors@[a].affiliations@)
                == matched_affiliations(upto, a, ror_lookup@) by {
                if a != author {
                    assert(before.contains_key(a));
                    assert(authors@[a] == before[a]);
                    assert(first_name(upto, a) == first_name(seen, a));
                }
            }
        }
        i = i + 1;
    }
    assert(records@.take(records.len() as int) =~= records@);
    authors
}

/// Builds the enriched record of one group of records: the authors by rising
/// number, each with the affiliations that were resolved, and without the
/// authors that have none. A group without any resolved affiliation gives
/// nothing.
pub fn process_doi_group(
    doi: &str,
    records: &[AuthorAffiliationRecord],
    ror_lookup: &StringHashMap<String>,
) -> (enriched: Option<EnrichedRecord>)
    ensures
        enriched is Some <==> enriched_group(doi@, records@, ror_lookup@) is Some,
        enriched matches Some(e) ==> Some(e@) == enriched_group(doi@, records@, ror_lookup@),
{
    let authors = gather_authors(records, ror_lookup);
    let mut creators: Vec<EnrichedCreator> = Vec::new();
    let values = authors.values();
    let ghost keys = choose|keys: Seq<usize>|
        {
            &&& increasing_seq(keys)
            &&& keys.to_set() == authors@.dom()
            &&& keys.no_duplicates()
            &&& IteratorSpec::remaining(&values) == keys.map(|i: int, k: usize| &authors@[k])
        };
    proof {
        lemma_increasing_is_rising(keys);
    }
    assert(creator_views(creators@) =~= Seq::<EnrichedCreatorView>::empty());
    assert(keys.take(0) =~= Seq::<usize>::empty());
    for data in it: values
        invariant
            it.seq() == keys.map(|i: int, k: usize| &authors@[k]),
            keys.to_set() == authors@.dom(),
            gathered(authors@, records@, ror_lookup@),
            creator_views(creators@) == creators_for(
                records@,
                ror_lookup@,
                keys.take(it.index() as int),
            ),
    {
        let ghost at = it.index() as int;
        let ghost author = keys[at];
        let ghost upto = keys.take(at + 1);
        assert(upto.drop_last() =~= keys.take(at));
        assert(upto.last() == author);
        assert(keys.to_set().contains(author));
        assert(authors@.contains_key(author));
        assert(*data == authors@[author]);
        if data.affiliations.len() > 0 {
            let creator = EnrichedCreator {
                name: data.name.clone(),
                given_name: None,
                family_name: None,
                affiliation: copy_affiliations(&data.affiliations),
            };
            let ghost before = creators@;
            creators.push(creator);
            assert(creator@ == creator_of(records@, author, ror_lookup@));
            assert(creator_views(creators@) =~= creator_views(before).push(creator@));
        }
    }
    proof {
        assert(keys.take(keys.len() as int) =~= keys);
        assert forall|r: int|
            0 <= r < records@.len() && (#[trigger] records@[r]).author_idx < usize::MAX
                + 1 implies keys.contains(records@[r].author_idx) by {
            lemma_author_has_name(records@, r);
            assert(authors@.contains_key(records@[r].author_idx));
            assert(keys.to_set().contains(records@[r].author_idx));
        }
        lemma_creators_for_keys(records@, ror_lookup@, keys, (usize::MAX + 1) as nat);
    }
    if creators.len() == 0 {
        None
    } else {
        Some(EnrichedRecord { doi: doi.to_owned(), creators })
    }
}

} // verus!
