//! Finding the affiliations of the authors in a bibliographic record.

use vstd::prelude::*;
use crate::extract::json::{elements_of, held, member_of, text_of, JsonValue};
use crate::{fingerprint, hash_affiliation, record_views, AuthorAffiliationRecord, AuthorAffiliationView};

verus! {

/// The identifier of a record: its `id` where that is a string, else the
/// `doi` among its attributes.
pub open spec fn doi_of(record: JsonValue) -> Option<Seq<char>> {
    match text_of(record.member("id"@)) {
        Some(id) => Some(id),
        None => text_of(member_of(record.member("attributes"@), "doi"@)),
    }
}

/// The authors of a record: the `creators` among its attributes.
pub open spec fn creators_of(record: JsonValue) -> Option<Seq<JsonValue>> {
    elements_of(member_of(record.member("attributes"@), "creators"@))
}

/// The name of an author.
pub open spec fn author_name_of(creator: JsonValue) -> Option<Seq<char>> {
    text_of(creator.member("name"@))
}

/// The affiliations of an author.
pub open spec fn affiliations_of(creator: JsonValue) -> Option<Seq<JsonValue>> {
    elements_of(creator.member("affiliation"@))
}

/// The name of an affiliation, which is either a plain string or an object
/// with a `name`.
pub open spec fn affiliation_name_of(affiliation: JsonValue) -> Option<Seq<char>> {
    match affiliation {
        JsonValue::String(s) => Some(s@),
        JsonValue::Object(_) => text_of(affiliation.member("name"@)),
        _ => None,
    }
}

/// The records for the affiliations `affiliations` of one author: one for
/// each affiliation with a non-empty name, numbered by its place in the list.
pub open spec fn affiliation_records(
    doi: Seq<char>,
    author_idx: usize,
    author_name: Seq<char>,
    affiliations: Seq<JsonValue>,
) -> Seq<AuthorAffiliationView>
    decreases affiliations.len(),
{
    if affiliations.len() == 0 {
        seq![]
    } else {
        let before = affiliation_records(doi, author_idx, author_name, affiliations.drop_last());
        match affiliation_name_of(affiliations.last()) {
            Some(name) => {
                if name.len() > 0 {
                    before.push(
                        AuthorAffiliationView {
                            doi,
                            author_idx,
                            author_name,
                            affiliation_idx: (affiliations.len() - 1) as usize,
                            affiliation: name,
                            affiliation_hash: fingerprint(name),
                            existing_ror_id: None,
                        },
                    )
                } else {
                    before
                }
            },
            None => before,
        }
    }
}

/// The records for one author, who needs a name and a list of affiliations
/// to have any.
pub open spec fn creator_records(doi: Seq<char>, author_idx: usize, creator: JsonValue) -> Seq<
    AuthorAffiliationView,
> {
    match (author_name_of(creator), affiliations_of(creator)) {
        (Some(name), Some(affiliations)) => affiliation_records(doi, author_idx, name, affiliations),
        _ => seq![],
    }
}

/// The records for the authors `creators`, each numbered by its place in the
/// list.
pub open spec fn creators_records(doi: Seq<char>, creators: Seq<JsonValue>) -> Seq<
    AuthorAffiliationView,
>
    decreases creators.len(),
{
    if creators.len() == 0 {
        seq![]
    } else {
        creators_records(doi, creators.drop_last()) + creator_records(
            doi,
            (creators.len() - 1) as usize,
            creators.last(),
        )
    }
}

/// The records that `record` gives: none without an identifier or without a
/// list of authors.
pub open spec fn parsed_affiliations(record: JsonValue) -> Seq<AuthorAffiliationView> {
    match (doi_of(record), creators_of(record)) {
        (Some(doi), Some(creators)) => creators_records(doi, creators),
        _ => seq![],
    }
}

/// The text of `value`, copied, if it is a string.
fn owned_text(value: Option<&JsonValue>) -> (r: Option<String>)
    ensures
        r is Some <==> text_of(held(value)) is Some,
        r matches Some(s) ==> text_of(held(value)) == Some(s@),
{
    match value {
        Some(v) => match v.as_str() {
            Some(s) => Some(s.to_owned()),
            None => None,
        },
        None => None,
    }
}

/// The identifier of a record.
pub fn extract_doi(record: &JsonValue) -> (r: Option<String>)
    ensures
        r is Some <==> doi_of(*record) is Some,
        r matches Some(s) ==> doi_of(*record) == Some(s@),
{
    match owned_text(record.get("id")) {
        Some(id) => Some(id),
        None => match record.get("attributes") {
            Some(attributes) => owned_text(attributes.get("doi")),
            None => None,
        },
    }
}

/// The name of an author.
pub fn extract_author_name(creator: &JsonValue) -> (r: Option<String>)
    ensures
        r is Some <==> author_name_of(*creator) is Some,
        r matches Some(s) ==> author_name_of(*creator) == Some(s@),
{
    owned_text(creator.get("name"))
}

/// The name of an affiliation.
pub fn extract_affiliation_name(affiliation: &JsonValue) -> (r: Option<String>)
    ensures
        r is Some <==> affiliation_name_of(*affiliation) is Some,
        r matches Some(s) ==> affiliation_name_of(*affiliation) == Some(s@),
{
    match affiliation {
        JsonValue::String(s) => Some(s.clone()),
        JsonValue::Object(_) => owned_text(affiliation.get("name")),
        _ => None,
    }
}

/// The list that `value` holds, if it is an array.
fn array_of(value: Option<&JsonValue>) -> (r: Option<&Vec<JsonValue>>)
    ensures
        r is Some <==> elements_of(held(value)) is Some,
        r matches Some(items) ==> elements_of(held(value)) == Some(items@),
{
    match value {
        Some(v) => v.as_array(),
        None => None,
    }
}

/// Finds the affiliations of the authors in `record`.
pub fn parse_affiliations(record: &JsonValue) -> (results: Vec<AuthorAffiliationRecord>)
    ensures
        record_views(results@) == parsed_affiliations(*record),
{
    let mut results: Vec<AuthorAffiliationRecord> = Vec::new();
    assert(record_views(results@) =~= Seq::<AuthorAffiliationView>::empty());
    let doi = match extract_doi(record) {
        Some(d) => d,
        None => {
            return results;
        },
    };
    let attributes = record.get("attributes");
    let creators = match attributes {
        Some(a) => match array_of(a.get("creators")) {
            Some(list) => list,
            None => {
                return results;
            },
        },
        None => {
            return results;
        },
    };
    let mut author_idx: usize = 0;
    assert(creators@.take(0) =~= Seq::<JsonValue>::empty());
    while author_idx < creators.len()
        invariant
            author_idx <= creators.len(),
            record_views(results@) == creators_records(doi@, creators@.take(author_idx as int)),
        decreases creators.len() - author_idx,
    {
        let ghost upto = creators@.take(author_idx as int + 1);
        assert(upto.drop_last() =~= creators@.take(author_idx as int));
        assert(upto.last() == creators@[author_idx as int]);
        let ghost base = record_views(results@);
        let creator = &creators[author_idx];
        let name = extract_author_name(creator);
        let list = array_of(creator.get("affiliation"));
        match (name, list) {
            (Some(author_name), Some(affiliations)) => {
                let mut affiliation_idx: usize = 0;
                assert(affiliations@.take(0) =~= Seq::<JsonValue>::empty());
                assert(base + Seq::<AuthorAffiliationView>::empty() =~= base);
                while affiliation_idx < affiliations.len()
                    invariant
                        affiliation_idx <= affiliations.len(),
                        record_views(results@) == base + affiliation_records(
                            doi@,
                            author_idx,
                            author_name@,
                            affiliations@.take(affiliation_idx as int),
                        ),
                    decreases affiliations.len() - affiliation_idx,
                {
                    let ghost part = affiliations@.take(affiliation_idx as int + 1);
                    assert(part.drop_last() =~= affiliations@.take(affiliation_idx as int));
                    assert(part.last() == affiliations@[affiliation_idx as int]);
                    let ghost sofar = affiliation_records(
                        doi@,
                        author_idx,
                        author_name@,
                        affiliations@.take(affiliation_idx as int),
                    );
                    if let Some(affiliation_name) = extract_affiliation_name(
                        &affiliations[affiliation_idx],
                    ) {
                        if !affiliation_name.as_str().is_empty() {
                            let affiliation_hash = hash_affiliation(affiliation_name.as_str());
                            let found = AuthorAffiliationRecord {
                                doi: doi.clone(),
                                author_idx,
                                author_name: author_name.clone(),
                                affiliation_idx,
                                affiliation: affiliation_name,
                                affiliation_hash,
                                existing_ror_id: None,
                            };
                            let ghost old_results = results@;
                            results.push(found);
                            assert(record_views(results@) =~= record_views(old_results).push(found@));
                            assert((base + sofar).push(found@) =~= base + sofar.push(found@));
                        }
                    }
                    affiliation_idx = affiliation_idx + 1;
                }
                assert(affiliations@.take(affiliations.len() as int) =~= affiliations@);
            },
            _ => {
                assert(base + Seq::<AuthorAffiliationView>::empty() =~= base);
            },
        }
        author_idx = author_idx + 1;
    }
    assert(creators@.take(creators.len() as int) =~= creators@);
    results
}

} // verus!
