//! Resolution of free-text affiliation strings to registry identifiers.
//!
//! The crate holds the rules of a three-stage pipeline: extracting affiliation
//! strings from bibliographic records, resolving them against an organization
//! registry, and joining the resolved identifiers back onto the records. All
//! input and output is left to the caller: every function here works on plain
//! values.

use vstd::prelude::*;
use vstd::utf8::encode_utf8;

pub mod extract;
pub mod hex;
pub mod lines;
pub mod query;
pub mod reconcile;
pub mod text;
pub mod unique;

verus! {

/// One affiliation of one author of one record, as extraction finds it.
#[derive(Debug, Clone)]
pub struct AuthorAffiliationRecord {
    pub doi: String,
    pub author_idx: usize,
    pub author_name: String,
    pub affiliation_idx: usize,
    pub affiliation: String,
    pub affiliation_hash: String,
    pub existing_ror_id: Option<String>,
}

/// What an `AuthorAffiliationRecord` holds.
pub struct AuthorAffiliationView {
    pub doi: Seq<char>,
    pub author_idx: usize,
    pub author_name: Seq<char>,
    pub affiliation_idx: usize,
    pub affiliation: Seq<char>,
    pub affiliation_hash: Seq<char>,
    pub existing_ror_id: Option<Seq<char>>,
}

impl View for AuthorAffiliationRecord {
    type V = AuthorAffiliationView;

    open spec fn view(&self) -> AuthorAffiliationView {
        AuthorAffiliationView {
            doi: self.doi@,
            author_idx: self.author_idx,
            author_name: self.author_name@,
            affiliation_idx: self.affiliation_idx,
            affiliation: self.affiliation@,
            affiliation_hash: self.affiliation_hash@,
            existing_ror_id: match self.existing_ror_id {
                Some(id) => Some(id@),
                None => None,
            },
        }
    }
}

/// What a sequence of records holds, in order.
pub open spec fn record_views(records: Seq<AuthorAffiliationRecord>) -> Seq<AuthorAffiliationView> {
    records.map_values(|r: AuthorAffiliationRecord| r@)
}

/// An affiliation that the registry resolved to an identifier.
#[derive(Debug, Clone)]
pub struct RorMatch {
    pub affiliation: String,
    pub affiliation_hash: String,
    pub ror_id: String,
}

/// An affiliation that was not resolved, with the reason.
#[derive(Debug, Clone)]
pub struct RorMatchFailed {
    pub affiliation: String,
    pub affiliation_hash: String,
    pub error: String,
}

/// An affiliation with its resolved identifier, in the shape of the output
/// records.
#[derive(Debug, Clone)]
pub struct EnrichedAffiliation {
    pub name: String,
    pub affiliation_identifier: String,
    pub affiliation_identifier_scheme: String,
    pub scheme_uri: String,
}

/// An author with the resolved affiliations.
#[derive(Debug, Clone)]
pub struct EnrichedCreator {
    pub name: String,
    pub given_name: Option<String>,
    pub family_name: Option<String>,
    pub affiliation: Vec<EnrichedAffiliation>,
}

/// A record with the authors that have a resolved affiliation.
#[derive(Debug, Clone)]
pub struct EnrichedRecord {
    pub doi: String,
    pub creators: Vec<EnrichedCreator>,
}

/// What an `EnrichedAffiliation` holds.
pub struct EnrichedAffiliationView {
    pub name: Seq<char>,
    pub affiliation_identifier: Seq<char>,
    pub affiliation_identifier_scheme: Seq<char>,
    pub scheme_uri: Seq<char>,
}

/// What an `EnrichedCreator` holds.
pub struct EnrichedCreatorView {
    pub name: Seq<char>,
    pub given_name: Option<Seq<char>>,
    pub family_name: Option<Seq<char>>,
    pub affiliation: Seq<EnrichedAffiliationView>,
}

/// What an `EnrichedRecord` holds.
pub struct EnrichedRecordView {
    pub doi: Seq<char>,
    pub creators: Seq<EnrichedCreatorView>,
}

/// The text that an optional string holds.
pub open spec fn optional_text(s: Option<String>) -> Option<Seq<char>> {
    match s {
        Some(text) => Some(text@),
        None => None,
    }
}

impl View for EnrichedAffiliation {
    type V = EnrichedAffiliationView;

    open spec fn view(&self) -> EnrichedAffiliationView {
        EnrichedAffiliationView {
            name: self.name@,
            affiliation_identifier: self.affiliation_identifier@,
            affiliation_identifier_scheme: self.affiliation_identifier_scheme@,
            scheme_uri: self.scheme_uri@,
        }
    }
}

impl View for EnrichedCreator {
    type V = EnrichedCreatorView;

    open spec fn view(&self) -> EnrichedCreatorView {
        EnrichedCreatorView {
            name: self.name@,
            given_name: optional_text(self.given_name),
            family_name: optional_text(self.family_name),
            affiliation: self.affiliation@.map_values(|a: EnrichedAffiliation| a@),
        }
    }
}

impl View for EnrichedRecord {
    type V = EnrichedRecordView;

    open spec fn view(&self) -> EnrichedRecordView {
        EnrichedRecordView {
            doi: self.doi@,
            creators: self.creators@.map_values(|c: EnrichedCreator| c@),
        }
    }
}

/// An identifier that a record already carried for an affiliation.
#[derive(Debug, Clone)]
pub struct ExistingAssignment {
    pub doi: String,
    pub author_idx: usize,
    pub author_name: String,
    pub affiliation: String,
    pub ror_id: String,
    pub ror_name: String,
}

/// How often records carried one identifier for one affiliation.
#[derive(Debug, Clone)]
pub struct ExistingAssignmentAggregated {
    pub affiliation: String,
    pub affiliation_hash: String,
    pub ror_id: String,
    pub ror_name: String,
    pub count: usize,
}

/// An identifier with its display name and the number of its uses.
#[derive(Debug, Clone)]
pub struct RorIdCount {
    pub ror_id: String,
    pub ror_name: String,
    pub count: usize,
}

/// A conflict between identifiers given to one affiliation.
#[derive(Debug, Clone)]
pub enum Disagreement {
    /// Records carry more than one identifier for the affiliation.
    User { affiliation: String, affiliation_hash: String, ror_ids: Vec<RorIdCount> },
    /// The registry's answer differs from an identifier that records carry.
    Match {
        affiliation: String,
        affiliation_hash: String,
        existing_ror_id: String,
        existing_ror_name: String,
        existing_count: usize,
        matched_ror_id: String,
        matched_ror_name: String,
    },
}

/// What an `ExistingAssignment` holds.
pub struct ExistingAssignmentView {
    pub doi: Seq<char>,
    pub author_idx: usize,
    pub author_name: Seq<char>,
    pub affiliation: Seq<char>,
    pub ror_id: Seq<char>,
    pub ror_name: Seq<char>,
}

impl View for ExistingAssignment {
    type V = ExistingAssignmentView;

    open spec fn view(&self) -> ExistingAssignmentView {
        ExistingAssignmentView {
            doi: self.doi@,
            author_idx: self.author_idx,
            author_name: self.author_name@,
            affiliation: self.affiliation@,
            ror_id: self.ror_id@,
            ror_name: self.ror_name@,
        }
    }
}

/// What an `ExistingAssignmentAggregated` holds.
pub struct AggregatedView {
    pub affiliation: Seq<char>,
    pub affiliation_hash: Seq<char>,
    pub ror_id: Seq<char>,
    pub ror_name: Seq<char>,
    pub count: usize,
}

impl View for ExistingAssignmentAggregated {
    type V = AggregatedView;

    open spec fn view(&self) -> AggregatedView {
        AggregatedView {
            affiliation: self.affiliation@,
            affiliation_hash: self.affiliation_hash@,
            ror_id: self.ror_id@,
            ror_name: self.ror_name@,
            count: self.count,
        }
    }
}

/// What a `RorIdCount` holds.
pub struct RorIdCountView {
    pub ror_id: Seq<char>,
    pub ror_name: Seq<char>,
    pub count: usize,
}

impl View for RorIdCount {
    type V = RorIdCountView;

    open spec fn view(&self) -> RorIdCountView {
        RorIdCountView { ror_id: self.ror_id@, ror_name: self.ror_name@, count: self.count }
    }
}

/// What a `Disagreement` holds.
pub enum DisagreementView {
    User { affiliation: Seq<char>, affiliation_hash: Seq<char>, ror_ids: Seq<RorIdCountView> },
    Match {
        affiliation: Seq<char>,
        affiliation_hash: Seq<char>,
        existing_ror_id: Seq<char>,
        existing_ror_name: Seq<char>,
        existing_count: usize,
        matched_ror_id: Seq<char>,
        matched_ror_name: Seq<char>,
    },
}

impl View for Disagreement {
    type V = DisagreementView;

    open spec fn view(&self) -> DisagreementView {
        match self {
            Disagreement::User { affiliation, affiliation_hash, ror_ids } => DisagreementView::User {
                affiliation: affiliation@,
                affiliation_hash: affiliation_hash@,
                ror_ids: ror_ids@.map_values(|c: RorIdCount| c@),
            },
            Disagreement::Match {
                affiliation,
                affiliation_hash,
                existing_ror_id,
                existing_ror_name,
                existing_count,
                matched_ror_id,
                matched_ror_name,
            } => DisagreementView::Match {
                affiliation: affiliation@,
                affiliation_hash: affiliation_hash@,
                existing_ror_id: existing_ror_id@,
                existing_ror_name: existing_ror_name@,
                existing_count: *existing_count,
                matched_ror_id: matched_ror_id@,
                matched_ror_name: matched_ror_name@,
            },
        }
    }
}

/// The 64-bit XXH3 digest of a byte string, with the default seed and secret.
pub uninterp spec fn xxh3_64_digest(bytes: Seq<u8>) -> u64;

/// Computes the 64-bit XXH3 digest of `bytes`.
///
/// Trusted: calls `xxhash_rust::xxh3::xxh3_64`. The digest is a function of
/// the input bytes alone; the contract gives it a name and claims nothing else.
#[verifier::external_body]
fn xxh3_digest(bytes: &[u8]) -> (h: u64)
    ensures
        h == xxh3_64_digest(bytes@),
{
    xxhash_rust::xxh3::xxh3_64(bytes)
}

/// The fingerprint of an affiliation string: the XXH3 digest of its UTF-8
/// bytes, written as sixteen hexadecimal digits.
pub open spec fn fingerprint(affiliation: Seq<char>) -> Seq<char> {
    hex::hex16(xxh3_64_digest(encode_utf8(affiliation)))
}

/// Every fingerprint has sixteen characters, all of them hexadecimal digits.
pub proof fn lemma_fingerprint_shape(affiliation: Seq<char>)
    ensures
        fingerprint(affiliation).len() == 16,
        forall|i: int| 0 <= i < 16 ==> hex::is_hex_digit(#[trigger] fingerprint(affiliation)[i]),
{
    hex::lemma_hex16_shape(xxh3_64_digest(encode_utf8(affiliation)));
}

/// Computes the fingerprint of an affiliation string.
pub fn hash_affiliation(affiliation: &str) -> (r: String)
    ensures
        r@ == fingerprint(affiliation@),
        r@.len() == 16,
        forall|i: int| 0 <= i < 16 ==> hex::is_hex_digit(#[trigger] r@[i]),
{
    proof {
        lemma_fingerprint_shape(affiliation@);
    }
    hex::to_hex16(xxh3_digest(affiliation.as_bytes()))
}

} // verus!
