use datacite_ror::reconcile::report::{affiliation_string, ror_name};
use datacite_ror::reconcile::ror_data::{display_name, marked_display, RorName, RorRecord};
use datacite_ror::reconcile::tally::Tallies;
use datacite_ror::reconcile::{load_ror_data, load_ror_matches, process_doi_group, Reconciler};
use datacite_ror::AuthorAffiliationRecord;
use datacite_ror::Disagreement;
use datacite_ror::EnrichedRecord;
use datacite_ror::RorMatch;

fn ror_match(affiliation: &str, hash: &str, ror_id: &str) -> RorMatch {
    RorMatch {
        affiliation: affiliation.to_string(),
        affiliation_hash: hash.to_string(),
        ror_id: ror_id.to_string(),
    }
}

fn name(value: &str, types: &[&str]) -> RorName {
    RorName { value: value.to_string(), types: types.iter().map(|t| t.to_string()).collect() }
}

fn relation(
    doi: &str,
    author_idx: usize,
    author_name: &str,
    affiliation_idx: usize,
    affiliation: &str,
    hash: &str,
    existing: Option<&str>,
) -> AuthorAffiliationRecord {
    AuthorAffiliationRecord {
        doi: doi.to_string(),
        author_idx,
        author_name: author_name.to_string(),
        affiliation_idx,
        affiliation: affiliation.to_string(),
        affiliation_hash: hash.to_string(),
        existing_ror_id: existing.map(|s| s.to_string()),
    }
}

/// Feeds `records` to a reconciliation and returns the enriched records.
fn reconcile(reconciler: &mut Reconciler, records: Vec<AuthorAffiliationRecord>) -> Vec<EnrichedRecord> {
    let mut enriched = Vec::new();
    for r in records {
        let out = reconciler.feed(r);
        enriched.extend(out.enriched);
    }
    enriched.extend(reconciler.finish());
    enriched
}

#[test]
fn test_load_ror_matches_builds_hash_map() {
    let lookup = load_ror_matches(vec![
        ror_match("University of Oxford", "abc123", "https://ror.org/052gg0110"),
        ror_match("MIT", "def456", "https://ror.org/042nb2s44"),
    ]);

    assert_eq!(lookup.len(), 2);
    assert_eq!(lookup.get("abc123"), Some(&"https://ror.org/052gg0110".to_string()));
    assert_eq!(lookup.get("def456"), Some(&"https://ror.org/042nb2s44".to_string()));
}

#[test]
fn test_load_ror_matches_handles_empty_file() {
    let lookup = load_ror_matches(vec![]);

    assert!(lookup.is_empty());
}

#[test]
fn test_reconcile_full_pipeline() {
    let relationships = vec![
        relation("10.1234/test", 0, "Doe, Jane", 0, "University of Oxford", "abc123", None),
        relation("10.1234/test", 0, "Doe, Jane", 1, "Unknown Institution", "unknown", None),
        relation("10.1234/test", 1, "Smith, John", 0, "MIT", "def456", None),
        // This author has no matching affiliations - should be excluded
        relation("10.1234/test", 2, "No Match Author", 0, "No Match Univ", "nomatch", None),
    ];

    let ror_lookup = load_ror_matches(vec![
        ror_match("University of Oxford", "abc123", "https://ror.org/052gg0110"),
        ror_match("MIT", "def456", "https://ror.org/042nb2s44"),
    ]);

    // Run reconcile
    let mut reconciler = Reconciler::new(load_ror_data(vec![]), ror_lookup);
    let records = reconcile(&mut reconciler, relationships);

    assert_eq!(records.len(), 1); // One DOI
    let record = &records[0];
    assert_eq!(record.doi, "10.1234/test");
    assert_eq!(record.creators.len(), 2); // Only authors with matches

    // First author has one matched affiliation (Oxford), not the unknown one
    assert_eq!(record.creators[0].name, "Doe, Jane");
    assert_eq!(record.creators[0].affiliation.len(), 1);
    assert_eq!(record.creators[0].affiliation[0].name, "University of Oxford");
    assert_eq!(record.creators[0].affiliation[0].affiliation_identifier, "https://ror.org/052gg0110");
    assert_eq!(record.creators[0].affiliation[0].affiliation_identifier_scheme, "ROR");
    assert_eq!(record.creators[0].affiliation[0].scheme_uri, "https://ror.org");

    // Second author
    assert_eq!(record.creators[1].name, "Smith, John");
    assert_eq!(record.creators[1].affiliation[0].affiliation_identifier, "https://ror.org/042nb2s44");

    assert_eq!(reconciler.records_enriched(), 1);
    assert_eq!(reconciler.records_existing(), 0);
    assert_eq!(reconciler.records_fed(), 4);
}

#[test]
fn test_reconcile_skips_doi_with_no_matches() {
    // Create relationship with no matching ROR
    let relationships =
        vec![relation("10.1234/nomatch", 0, "Author", 0, "Unknown", "unknown", None)];

    // Empty matches
    let mut reconciler = Reconciler::new(load_ror_data(vec![]), load_ror_matches(vec![]));
    let records = reconcile(&mut reconciler, relationships);

    // Output should be empty
    assert!(records.is_empty());
    assert_eq!(reconciler.records_enriched(), 0);
}

#[test]
fn test_load_ror_data_builds_name_lookup() {
    let lookup = load_ror_data(vec![
        RorRecord {
            id: "https://ror.org/052gg0110".to_string(),
            names: vec![
                name("Oxford", &["acronym"]),
                name("University of Oxford", &["ror_display", "label"]),
            ],
        },
        RorRecord {
            id: "https://ror.org/042nb2s44".to_string(),
            names: vec![
                name("MIT", &["acronym"]),
                name("Massachusetts Institute of Technology", &["ror_display", "label"]),
            ],
        },
    ]);

    assert_eq!(lookup.len(), 2);
    assert_eq!(lookup.get("https://ror.org/052gg0110"), Some(&"University of Oxford".to_string()));
    assert_eq!(lookup.get("https://ror.org/042nb2s44"), Some(&"Massachusetts Institute of Technology".to_string()));
}

#[test]
fn test_load_ror_data_handles_missing_ror_display() {
    // Record with only alias, no ror_display - should fall back to first name
    let lookup = load_ror_data(vec![RorRecord {
        id: "https://ror.org/test123".to_string(),
        names: vec![name("Test Org", &["alias"])],
    }]);

    assert_eq!(lookup.get("https://ror.org/test123"), Some(&"Test Org".to_string()));
}

#[test]
fn display_name_prefers_the_first_marked_name() {
    assert_eq!(display_name(&vec![]), None);
    assert_eq!(
        display_name(&vec![name("a", &[]), name("b", &["label", "ror_display"]), name("c", &["ror_display"])]),
        Some("b".to_string())
    );
    assert_eq!(display_name(&vec![name("a", &["label"]), name("b", &["ROR_DISPLAY"])]), Some("a".to_string()));
    assert!(marked_display(&name("x", &["alias", "ror_display"])));
    assert!(!marked_display(&name("x", &["ror_display "])));
    assert!(!marked_display(&name("x", &[])));
}

#[test]
fn load_ror_data_skips_records_without_names_and_lets_the_later_record_count() {
    let lookup = load_ror_data(vec![
        RorRecord { id: "r1".to_string(), names: vec![] },
        RorRecord { id: "r2".to_string(), names: vec![name("Old", &["ror_display"])] },
        RorRecord { id: "r2".to_string(), names: vec![name("New", &["label"])] },
    ]);
    assert_eq!(lookup.len(), 1);
    assert_eq!(lookup.get("r1"), None);
    assert_eq!(lookup.get("r2"), Some(&"New".to_string()));
    assert_eq!(ror_name(&lookup, "r2"), "New");
    assert_eq!(ror_name(&lookup, "r1"), "Unknown");
    assert_eq!(affiliation_string(&lookup, "r2"), "New");
    assert_eq!(affiliation_string(&lookup, "r1"), "");
}

#[test]
fn load_ror_matches_lets_the_later_match_count() {
    let lookup = load_ror_matches(vec![ror_match("A", "h", "first"), ror_match("A", "h", "second")]);
    assert_eq!(lookup.len(), 1);
    assert_eq!(lookup.get("h"), Some(&"second".to_string()));
}

#[test]
fn process_doi_group_orders_authors_by_number() {
    let lookup = load_ror_matches(vec![
        ror_match("A", "ha", "id-a"),
        ror_match("B", "hb", "id-b"),
    ]);
    let records = vec![
        relation("d", 7, "Seven", 0, "B", "hb", None),
        relation("d", 2, "Two", 0, "none", "hx", None),
        relation("d", 0, "Zero", 0, "A", "ha", None),
        relation("d", 7, "Seven again", 1, "A", "ha", None),
        relation("d", 3, "Three first", 0, "none", "hx", None),
        relation("d", 3, "Three", 1, "B", "hb", None),
    ];
    let enriched = process_doi_group("10.1/d", &records, &lookup).unwrap();
    assert_eq!(enriched.doi, "10.1/d");
    let names: Vec<&str> = enriched.creators.iter().map(|c| c.name.as_str()).collect();
    assert_eq!(names, vec!["Zero", "Three first", "Seven"]);
    assert_eq!(enriched.creators[2].affiliation.len(), 2);
    assert_eq!(enriched.creators[2].affiliation[0].name, "B");
    assert_eq!(enriched.creators[2].affiliation[0].affiliation_identifier, "id-b");
    assert_eq!(enriched.creators[2].affiliation[1].name, "A");
    assert_eq!(enriched.creators[2].affiliation[1].affiliation_identifier, "id-a");
    assert_eq!(enriched.creators[0].given_name, None);
    assert_eq!(enriched.creators[0].family_name, None);
    assert!(process_doi_group("10.1/d", &[], &lookup).is_none());
    assert!(process_doi_group("10.1/d", &records[1..2], &lookup).is_none());
    let last = vec![relation("d", usize::MAX, "Last", 0, "A", "ha", None)];
    assert_eq!(process_doi_group("d", &last, &lookup).unwrap().creators[0].name, "Last");
}

#[test]
fn reconciler_groups_successive_records_of_one_work() {
    let lookup = load_ror_matches(vec![ror_match("A", "ha", "id-a")]);
    let mut reconciler = Reconciler::new(load_ror_data(vec![]), lookup);
    let first = reconciler.feed(relation("w1", 0, "X", 0, "A", "ha", None));
    assert!(first.enriched.is_none() && first.existing.is_none());
    let second = reconciler.feed(relation("w1", 1, "Y", 0, "A", "ha", None));
    assert!(second.enriched.is_none());
    let third = reconciler.feed(relation("w2", 0, "Z", 0, "none", "hx", None));
    let closed = third.enriched.unwrap();
    assert_eq!(closed.doi, "w1");
    assert_eq!(closed.creators.len(), 2);
    let fourth = reconciler.feed(relation("w1", 0, "X", 0, "A", "ha", None));
    assert!(fourth.enriched.is_none());
    let last = reconciler.finish().unwrap();
    assert_eq!(last.doi, "w1");
    assert_eq!(last.creators.len(), 1);
    assert!(reconciler.finish().is_none());
    assert_eq!(reconciler.records_enriched(), 2);
    assert_eq!(reconciler.records_fed(), 4);
}

#[test]
fn reconciler_reports_and_counts_existing_assignments() {
    let names = load_ror_data(vec![
        RorRecord { id: "id-a".to_string(), names: vec![name("Org A", &["ror_display"])] },
        RorRecord { id: "id-b".to_string(), names: vec![name("Org B", &["ror_display"])] },
    ]);
    let lookup = load_ror_matches(vec![ror_match("A", "ha", "id-a"), ror_match("C", "hc", "id-c")]);
    let mut reconciler = Reconciler::new(names, lookup);

    let out = reconciler.feed(relation("w1", 0, "X", 0, "First spelling", "ha", None));
    assert!(out.existing.is_none());
    let out = reconciler.feed(relation("w1", 1, "Y", 0, "A", "ha", Some("id-a")));
    let existing = out.existing.unwrap();
    assert!(out.enriched.is_none());
    assert_eq!(existing.doi, "w1");
    assert_eq!(existing.author_idx, 1);
    assert_eq!(existing.author_name, "Y");
    assert_eq!(existing.affiliation, "A");
    assert_eq!(existing.ror_id, "id-a");
    assert_eq!(existing.ror_name, "Org A");
    reconciler.feed(relation("w2", 0, "Z", 0, "A", "ha", Some("id-b")));
    reconciler.feed(relation("w2", 1, "Z", 0, "A", "ha", Some("id-a")));
    let out = reconciler.feed(relation("w3", 0, "Q", 0, "C", "hc", Some("id-q")));
    assert_eq!(out.existing.unwrap().ror_name, "Unknown");
    reconciler.feed(relation("w3", 0, "Q", 0, "D", "hd", Some("id-b")));
    assert_eq!(reconciler.records_existing(), 5);

    // The open group is not touched by records that carry an identifier.
    let closed = reconciler.finish().unwrap();
    assert_eq!(closed.doi, "w1");

    let rows = reconciler.aggregated();
    let flat: Vec<(&str, &str, &str, &str, usize)> = rows
        .iter()
        .map(|r| (r.affiliation.as_str(), r.affiliation_hash.as_str(), r.ror_id.as_str(), r.ror_name.as_str(), r.count))
        .collect();
    assert_eq!(
        flat,
        vec![
            ("First spelling", "ha", "id-a", "Org A", 2),
            ("First spelling", "ha", "id-b", "Org B", 1),
            ("C", "hc", "id-q", "Unknown", 1),
            ("D", "hd", "id-b", "Org B", 1),
        ]
    );

    let rows = reconciler.disagreements();
    assert_eq!(rows.len(), 3);
    match &rows[0] {
        Disagreement::User { affiliation, affiliation_hash, ror_ids } => {
            assert_eq!(affiliation, "First spelling");
            assert_eq!(affiliation_hash, "ha");
            assert_eq!(ror_ids.len(), 2);
            assert_eq!(ror_ids[0].ror_id, "id-a");
            assert_eq!(ror_ids[0].ror_name, "Org A");
            assert_eq!(ror_ids[0].count, 2);
            assert_eq!(ror_ids[1].ror_id, "id-b");
            assert_eq!(ror_ids[1].count, 1);
        }
        other => panic!("unexpected disagreement {:?}", other),
    }
    match &rows[1] {
        Disagreement::Match {
            affiliation_hash,
            existing_ror_id,
            existing_ror_name,
            existing_count,
            matched_ror_id,
            matched_ror_name,
            ..
        } => {
            assert_eq!(affiliation_hash, "ha");
            assert_eq!(existing_ror_id, "id-b");
            assert_eq!(existing_ror_name, "Org B");
            assert_eq!(*existing_count, 1);
            assert_eq!(matched_ror_id, "id-a");
            assert_eq!(matched_ror_name, "Org A");
        }
        other => panic!("unexpected disagreement {:?}", other),
    }
    match &rows[2] {
        Disagreement::Match { affiliation, existing_ror_id, matched_ror_id, matched_ror_name, .. } => {
            assert_eq!(affiliation, "C");
            assert_eq!(existing_ror_id, "id-q");
            assert_eq!(matched_ror_id, "id-c");
            assert_eq!(matched_ror_name, "Unknown");
        }
        other => panic!("unexpected disagreement {:?}", other),
    }
}

#[test]
fn tallies_count_by_fingerprint_and_identifier() {
    let mut tallies = Tallies::new();
    assert_eq!(tallies.len(), 0);
    tallies.add("h1", "a");
    tallies.add("h2", "a");
    tallies.add("h1", "b");
    tallies.add("h1", "a");
    assert_eq!(tallies.len(), 2);
    assert_eq!(tallies.count(), 4);
    assert_eq!(tallies.get(0).hash, "h1");
    assert_eq!(tallies.get(0).counts, vec![("a".to_string(), 2), ("b".to_string(), 1)]);
    assert_eq!(tallies.get(1).hash, "h2");
    assert_eq!(tallies.get(1).counts, vec![("a".to_string(), 1)]);
}
