use datacite_ror::hash_affiliation;
use datacite_ror::query::client::{phase_step, Lookup, Phase, PhaseStep, Resolution};
use datacite_ror::query::decimal::parse_u64;
use datacite_ror::query::registry::{pick_chosen, RorItem, RorOrganization, RorResponse};
use datacite_ror::query::retry::{
    backoff_secs, request_step, Exchange, RequestError, RequestStep, MAX_ATTEMPTS,
};
use datacite_ror::query::url::build_search_url;
use datacite_ror::query::{
    open_checkpoint, outcome_record, pending, sink_mode, Checkpoint, QueryArgs, RorClient, Run,
    SinkMode, SinkRecord,
};

fn chosen_item(id: &str) -> RorItem {
    RorItem { chosen: Some(true), organization: Some(RorOrganization { id: id.to_string() }) }
}

fn ok_reply(items: Vec<RorItem>) -> Exchange {
    Exchange::Reply {
        code: 200,
        status: "200 OK".to_string(),
        retry_after: None,
        body: Ok(RorResponse { items }),
    }
}

fn status_reply(code: u16, status: &str) -> Exchange {
    Exchange::Reply {
        code,
        status: status.to_string(),
        retry_after: None,
        body: Err(String::new()),
    }
}

fn rate_limited(retry_after: Option<&str>) -> Exchange {
    Exchange::Reply {
        code: 429,
        status: "429 Too Many Requests".to_string(),
        retry_after: retry_after.map(|s| s.to_string()),
        body: Err(String::new()),
    }
}

/// Sends the requests of `lookup` to `registry` until the lookup has ended,
/// and returns the addresses that were asked and the waits that were made.
fn exchange_all(
    lookup: &mut Lookup,
    registry: &mut dyn FnMut(&str, usize) -> Exchange,
) -> (Vec<String>, Vec<u64>) {
    let mut urls = Vec::new();
    let mut waits = Vec::new();
    while let Some(url) = lookup.next_url() {
        assert!(urls.len() < 12, "a lookup needs at most twelve exchanges");
        let exchange = registry(&url, urls.len());
        urls.push(url);
        if let Some(wait) = lookup.record(exchange) {
            waits.push(wait);
        }
    }
    assert!(lookup.is_done());
    (urls, waits)
}

/// Runs a lookup against `registry` and returns how it ended, the addresses
/// that were asked, and the waits that were made.
fn drive(
    mut lookup: Lookup,
    registry: &mut dyn FnMut(&str, usize) -> Exchange,
) -> (Resolution, Vec<String>, Vec<u64>) {
    let (urls, waits) = exchange_all(&mut lookup, registry);
    (lookup.into_outcome().unwrap(), urls, waits)
}

#[test]
fn test_query_ror_single_search_success() {
    let mut client = RorClient::new("http://registry.test".to_string(), 50, 30);

    let lookup = client.query_affiliation("University of Oxford", false).unwrap();
    let (result, urls, waits) = drive(lookup, &mut |url, _| {
        assert!(url.ends_with("&single_search"));
        ok_reply(vec![chosen_item("https://ror.org/052gg0110")])
    });

    match result {
        Resolution::Matched(ror_id) => assert_eq!(ror_id, "https://ror.org/052gg0110"),
        other => panic!("unexpected outcome {:?}", other),
    }
    assert_eq!(urls.len(), 1);
    assert!(waits.is_empty());
}

#[test]
fn test_query_ror_no_match_returns_none() {
    let mut client = RorClient::new("http://registry.test".to_string(), 50, 30);

    let lookup = client.query_affiliation("Unknown Institution", false).unwrap();
    let (result, urls, _) = drive(lookup, &mut |_, _| ok_reply(vec![]));

    assert!(matches!(result, Resolution::NotMatched));
    assert_eq!(urls.len(), 1);
}

#[test]
fn test_query_ror_retry_on_500() {
    let mut client = RorClient::new("http://registry.test".to_string(), 50, 30);

    // First request with quotes returns 500, second without quotes succeeds
    let lookup = client.query_affiliation("Test University", false).unwrap();
    let (result, urls, waits) = drive(lookup, &mut |url, _| {
        if url.contains("affiliation=\"Test%20University\"") {
            status_reply(500, "500 Internal Server Error")
        } else {
            assert!(url.contains("affiliation=Test%20University&"));
            ok_reply(vec![chosen_item("https://ror.org/abc123")])
        }
    });

    match result {
        Resolution::Matched(ror_id) => assert_eq!(ror_id, "https://ror.org/abc123"),
        other => panic!("unexpected outcome {:?}", other),
    }
    assert_eq!(urls.len(), 2);
    assert_eq!(
        urls[0],
        "http://registry.test/v2/organizations?affiliation=\"Test%20University\"&single_search"
    );
    assert_eq!(
        urls[1],
        "http://registry.test/v2/organizations?affiliation=Test%20University&single_search"
    );
    assert!(waits.is_empty());
}

#[test]
fn test_query_full_pipeline() {
    let affiliations = vec!["University of Oxford".to_string(), "MIT".to_string()];
    let args = QueryArgs {
        input: "input".to_string(),
        output: "output".to_string(),
        base_url: "http://registry.test".to_string(),
        concurrency: 2,
        timeout: 5,
        resume: false,
        fallback_multi: false,
    };

    let checkpoint = open_checkpoint("output/ror_matches.checkpoint", args.resume, None);
    let mut client = RorClient::new(args.base_url.clone(), args.concurrency, args.timeout);
    let mut run = Run::plan(&affiliations, checkpoint);
    assert_eq!(run.total(), 2);

    let mut matches = Vec::new();
    for index in 0..run.total() {
        let (affiliation, _) = run.unit(index).unwrap();
        let mut lookup = client.query_affiliation(affiliation, args.fallback_multi).unwrap();
        assert_eq!(client.in_flight(), 1);
        exchange_all(&mut lookup, &mut |_, _| ok_reply(vec![chosen_item("https://ror.org/test123")]));
        let result = client.finish(lookup).unwrap();
        assert_eq!(client.in_flight(), 0);
        let record = run.record_for(index, result).unwrap();
        if let SinkRecord::Matched(m) = &record {
            matches.push(m.clone());
        }
        assert!(run.mark_recorded(index, &record));
    }

    assert_eq!(matches.len(), 2);
    assert!(run.is_finished());
    assert_eq!(run.matched(), 2);
    assert_eq!(run.failed(), 0);

    assert_eq!(run.checkpoint().path(), "output/ror_matches.checkpoint");
    let checkpoint = run.into_checkpoint();
    assert_eq!(checkpoint.path(), "output/ror_matches.checkpoint");
    assert_eq!(
        checkpoint.save(),
        format!("{}\n{}\n", hash_affiliation("University of Oxford"), hash_affiliation("MIT"))
    );
    assert_eq!(checkpoint.len(), 2);
    assert!(checkpoint.is_processed(&hash_affiliation("University of Oxford")));
    assert!(checkpoint.is_processed(&hash_affiliation("MIT")));
    assert_eq!(checkpoint.save().lines().count(), 2);
}

#[test]
fn lookup_without_choice_falls_back_to_broad_search_when_enabled() {
    let lookup = Lookup::start("http://r", "MIT", true);
    let (result, urls, _) = drive(lookup, &mut |url, _| {
        if url.ends_with("&single_search") {
            ok_reply(vec![RorItem { chosen: Some(false), organization: None }])
        } else {
            ok_reply(vec![chosen_item("https://ror.org/042nb2s44")])
        }
    });
    assert!(matches!(result, Resolution::Matched(id) if id == "https://ror.org/042nb2s44"));
    assert_eq!(
        urls,
        vec![
            "http://r/v2/organizations?affiliation=\"MIT\"&single_search".to_string(),
            "http://r/v2/organizations?affiliation=\"MIT\"".to_string(),
        ]
    );
}

#[test]
fn lookup_goes_through_all_four_phases_on_errors_with_fallback() {
    let lookup = Lookup::start("http://r", "MIT", true);
    let (result, urls, waits) =
        drive(lookup, &mut |_, _| status_reply(503, "503 Service Unavailable"));
    match result {
        Resolution::Failed(error) => {
            assert_eq!(error.message(), "HTTP 503 Service Unavailable");
            assert!(error.is_server());
        }
        other => panic!("unexpected outcome {:?}", other),
    }
    assert_eq!(
        urls,
        vec![
            "http://r/v2/organizations?affiliation=\"MIT\"&single_search".to_string(),
            "http://r/v2/organizations?affiliation=MIT&single_search".to_string(),
            "http://r/v2/organizations?affiliation=\"MIT\"".to_string(),
            "http://r/v2/organizations?affiliation=MIT".to_string(),
        ]
    );
    assert!(waits.is_empty());
}

#[test]
fn lookup_server_error_in_both_restrictive_phases_fails_without_fallback() {
    let lookup = Lookup::start("http://r", "MIT", false);
    let (result, urls, _) = drive(lookup, &mut |_, _| status_reply(500, "500 Internal Server Error"));
    match result {
        Resolution::Failed(error) => assert_eq!(error.message(), "HTTP 500 Internal Server Error"),
        other => panic!("unexpected outcome {:?}", other),
    }
    assert_eq!(urls.len(), 2);
}

#[test]
fn lookup_client_error_is_terminal_without_fallback() {
    let lookup = Lookup::start("http://r", "MIT", false);
    let (result, urls, waits) = drive(lookup, &mut |_, _| status_reply(404, "404 Not Found"));
    match result {
        Resolution::Failed(RequestError::Http { code, status }) => {
            assert_eq!(code, 404);
            assert_eq!(status, "404 Not Found");
        }
        other => panic!("unexpected outcome {:?}", other),
    }
    assert_eq!(urls.len(), 1);
    assert!(waits.is_empty());
}

#[test]
fn lookup_client_error_is_terminal_with_fallback() {
    let lookup = Lookup::start("http://r", "MIT", true);
    let (result, urls, waits) = drive(lookup, &mut |url, _| {
        if url.ends_with("&single_search") {
            status_reply(404, "404 Not Found")
        } else {
            ok_reply(vec![chosen_item("https://ror.org/042nb2s44")])
        }
    });
    match result {
        Resolution::Failed(RequestError::Http { code, status }) => {
            assert_eq!(code, 404);
            assert_eq!(status, "404 Not Found");
        }
        other => panic!("unexpected outcome {:?}", other),
    }
    assert_eq!(urls.len(), 1);
    assert!(urls[0].ends_with("affiliation=\"MIT\"&single_search"));
    assert!(waits.is_empty());
}

#[test]
fn lookup_client_error_in_the_second_phase_leads_to_broad_search_with_fallback() {
    let lookup = Lookup::start("http://r", "MIT", true);
    let (result, urls, _) = drive(lookup, &mut |url, n| {
        if n == 0 {
            status_reply(500, "500 Internal Server Error")
        } else if url.ends_with("&single_search") {
            status_reply(404, "404 Not Found")
        } else {
            ok_reply(vec![])
        }
    });
    assert!(matches!(result, Resolution::NotMatched));
    assert_eq!(urls.len(), 3);
    assert!(urls[1].ends_with("affiliation=MIT&single_search"));
    assert!(urls[2].ends_with("affiliation=\"MIT\""));
}

#[test]
fn lookup_spent_attempts_in_the_first_phase_are_terminal_with_fallback() {
    let lookup = Lookup::start("http://r", "MIT", true);
    let (result, urls, waits) =
        drive(lookup, &mut |_, _| Exchange::Failed { error: "connection reset".to_string() });
    assert!(matches!(result, Resolution::Failed(RequestError::Transport { .. })));
    assert_eq!(urls.len(), 3);
    assert!(urls.iter().all(|u| u.ends_with("affiliation=\"MIT\"&single_search")));
    assert_eq!(waits, vec![1, 2]);

    let lookup = Lookup::start("http://r", "MIT", true);
    let (result, urls, waits) = drive(lookup, &mut |_, _| rate_limited(Some("3")));
    assert!(matches!(result, Resolution::Failed(RequestError::RetriesExhausted)));
    assert_eq!(urls.len(), 3);
    assert_eq!(waits, vec![3, 3, 3]);
}

#[test]
fn lookup_undecodable_body_leads_to_broad_search_with_fallback() {
    let lookup = Lookup::start("http://r", "MIT", true);
    let (result, urls, _) = drive(lookup, &mut |url, _| {
        if url.ends_with("&single_search") {
            Exchange::Reply {
                code: 200,
                status: "200 OK".to_string(),
                retry_after: None,
                body: Err("error decoding response body".to_string()),
            }
        } else {
            ok_reply(vec![chosen_item("https://ror.org/042nb2s44")])
        }
    });
    assert!(matches!(result, Resolution::Matched(id) if id == "https://ror.org/042nb2s44"));
    assert_eq!(urls.len(), 2);
    assert!(urls[1].ends_with("affiliation=\"MIT\""));
}

#[test]
fn status_of_six_hundred_and_above_is_no_server_error() {
    let error = |code: u16| RequestError::Http { code, status: code.to_string() };
    assert!(!error(499).is_server());
    assert!(error(500).is_server());
    assert!(error(503).is_server());
    assert!(error(599).is_server());
    assert!(!error(600).is_server());
    assert!(!error(999).is_server());
    assert!(!error(404).is_server());
    assert!(!RequestError::RetriesExhausted.is_server());
    assert!(!RequestError::Transport { error: "500".to_string() }.is_server());
    assert!(RequestError::Decode { error: String::new() }.is_decode());
    assert!(!error(500).is_decode());

    let lookup = Lookup::start("http://r", "MIT", true);
    let (result, urls, _) = drive(lookup, &mut |_, _| status_reply(600, "600 <unknown status code>"));
    assert!(matches!(result, Resolution::Failed(RequestError::Http { code: 600, .. })));
    assert_eq!(urls.len(), 1);
}

#[test]
fn lookup_rate_limit_is_retried_and_not_surfaced() {
    let lookup = Lookup::start("http://r", "MIT", false);
    let (result, urls, waits) = drive(lookup, &mut |_, n| {
        if n == 0 {
            rate_limited(Some("7"))
        } else {
            ok_reply(vec![chosen_item("https://ror.org/042nb2s44")])
        }
    });
    assert!(matches!(result, Resolution::Matched(id) if id == "https://ror.org/042nb2s44"));
    assert_eq!(urls.len(), 2);
    assert_eq!(urls[0], urls[1]);
    assert_eq!(waits, vec![7]);
}

#[test]
fn lookup_rate_limit_without_hint_backs_off_and_gives_up_after_three_attempts() {
    let lookup = Lookup::start("http://r", "MIT", false);
    let (result, urls, waits) = drive(lookup, &mut |_, _| rate_limited(None));
    match result {
        Resolution::Failed(error) => {
            assert!(matches!(error, RequestError::RetriesExhausted));
            assert_eq!(error.message(), "Max retries exceeded");
            assert!(!error.is_server());
        }
        other => panic!("unexpected outcome {:?}", other),
    }
    assert_eq!(urls.len(), 3);
    assert_eq!(waits, vec![1, 2, 4]);
}

#[test]
fn lookup_transport_error_is_retried_three_times_with_backoff() {
    let lookup = Lookup::start("http://r", "MIT", false);
    let (result, urls, waits) =
        drive(lookup, &mut |_, _| Exchange::Failed { error: "connection reset".to_string() });
    match result {
        Resolution::Failed(error) => {
            assert!(matches!(&error, RequestError::Transport { error } if error == "connection reset"));
            assert_eq!(error.message(), "connection reset");
        }
        other => panic!("unexpected outcome {:?}", other),
    }
    assert_eq!(urls.len(), 3);
    assert_eq!(waits, vec![1, 2]);
}

#[test]
fn lookup_transport_error_then_success_is_a_match() {
    let lookup = Lookup::start("http://r", "MIT", false);
    let (result, urls, waits) = drive(lookup, &mut |_, n| {
        if n < 2 {
            Exchange::Failed { error: "timed out".to_string() }
        } else {
            ok_reply(vec![chosen_item("https://ror.org/042nb2s44")])
        }
    });
    assert!(matches!(result, Resolution::Matched(_)));
    assert_eq!(urls.len(), 3);
    assert_eq!(waits, vec![1, 2]);
}

#[test]
fn lookup_undecodable_body_is_a_failure() {
    let lookup = Lookup::start("http://r", "MIT", false);
    let (result, urls, _) = drive(lookup, &mut |_, _| Exchange::Reply {
        code: 200,
        status: "200 OK".to_string(),
        retry_after: None,
        body: Err("error decoding response body".to_string()),
    });
    match result {
        Resolution::Failed(error) => {
            assert!(matches!(error, RequestError::Decode { .. }));
            assert_eq!(error.message(), "error decoding response body");
        }
        other => panic!("unexpected outcome {:?}", other),
    }
    assert_eq!(urls.len(), 1);
}

#[test]
fn lookup_that_has_ended_ignores_further_exchanges() {
    let mut lookup = Lookup::start("http://r", "MIT", false);
    assert_eq!(lookup.phase(), Phase::QuotedSingle);
    assert_eq!(lookup.attempt(), 0);
    assert!(lookup.outcome().is_none());
    assert_eq!(lookup.record(ok_reply(vec![])), None);
    assert!(lookup.is_done());
    assert_eq!(lookup.next_url(), None);
    assert_eq!(lookup.record(ok_reply(vec![chosen_item("x")])), None);
    assert!(matches!(lookup.outcome(), Some(Resolution::NotMatched)));
}

#[test]
fn lookup_counts_attempts_within_a_phase() {
    let mut lookup = Lookup::start("http://r", "MIT", false);
    assert_eq!(lookup.record(rate_limited(Some("0"))), Some(0));
    assert_eq!(lookup.attempt(), 1);
    assert_eq!(lookup.phase(), Phase::QuotedSingle);
    assert_eq!(lookup.record(status_reply(502, "502 Bad Gateway")), None);
    assert_eq!(lookup.attempt(), 0);
    assert_eq!(lookup.phase(), Phase::UnquotedSingle);
    assert!(!lookup.is_done());
}

#[test]
fn phase_step_follows_the_protocol() {
    let server = || RequestError::Http { code: 500, status: "500 Internal Server Error".to_string() };
    let client = || RequestError::Http { code: 400, status: "400 Bad Request".to_string() };
    assert!(matches!(
        phase_step(Phase::QuotedSingle, false, Err(server())),
        PhaseStep::Next(Phase::UnquotedSingle)
    ));
    assert!(matches!(
        phase_step(Phase::QuotedSingle, true, Err(server())),
        PhaseStep::Next(Phase::UnquotedSingle)
    ));
    assert!(matches!(
        phase_step(Phase::QuotedSingle, false, Err(client())),
        PhaseStep::Finish(Resolution::Failed(_))
    ));
    assert!(matches!(
        phase_step(Phase::QuotedSingle, true, Err(client())),
        PhaseStep::Finish(Resolution::Failed(RequestError::Http { code: 400, .. }))
    ));
    assert!(matches!(
        phase_step(Phase::QuotedSingle, true, Err(RequestError::RetriesExhausted)),
        PhaseStep::Finish(Resolution::Failed(RequestError::RetriesExhausted))
    ));
    assert!(matches!(
        phase_step(Phase::QuotedSingle, true, Err(RequestError::Transport { error: "reset".to_string() })),
        PhaseStep::Finish(Resolution::Failed(RequestError::Transport { .. }))
    ));
    assert!(matches!(
        phase_step(Phase::QuotedSingle, true, Err(RequestError::Decode { error: "eof".to_string() })),
        PhaseStep::Next(Phase::QuotedMulti)
    ));
    assert!(matches!(
        phase_step(Phase::QuotedSingle, false, Err(RequestError::Decode { error: "eof".to_string() })),
        PhaseStep::Finish(Resolution::Failed(RequestError::Decode { .. }))
    ));
    assert!(matches!(
        phase_step(Phase::UnquotedSingle, true, Err(client())),
        PhaseStep::Next(Phase::QuotedMulti)
    ));
    assert!(matches!(
        phase_step(Phase::UnquotedSingle, true, Err(RequestError::RetriesExhausted)),
        PhaseStep::Next(Phase::QuotedMulti)
    ));
    assert!(matches!(
        phase_step(Phase::QuotedSingle, false, Ok(None)),
        PhaseStep::Finish(Resolution::NotMatched)
    ));
    assert!(matches!(
        phase_step(Phase::UnquotedSingle, true, Ok(None)),
        PhaseStep::Next(Phase::QuotedMulti)
    ));
    assert!(matches!(
        phase_step(Phase::UnquotedSingle, false, Err(server())),
        PhaseStep::Finish(Resolution::Failed(_))
    ));
    assert!(matches!(
        phase_step(Phase::QuotedMulti, true, Ok(None)),
        PhaseStep::Finish(Resolution::NotMatched)
    ));
    assert!(matches!(
        phase_step(Phase::QuotedMulti, true, Err(client())),
        PhaseStep::Next(Phase::UnquotedMulti)
    ));
    assert!(matches!(
        phase_step(Phase::UnquotedMulti, true, Err(client())),
        PhaseStep::Finish(Resolution::Failed(_))
    ));
    assert!(matches!(
        phase_step(Phase::UnquotedMulti, true, Ok(Some("id".to_string()))),
        PhaseStep::Finish(Resolution::Matched(_))
    ));
    assert!(Phase::QuotedMulti.is_quoted() && !Phase::QuotedMulti.is_single());
    assert!(!Phase::UnquotedSingle.is_quoted() && Phase::UnquotedSingle.is_single());
}

#[test]
fn request_step_classifies_replies() {
    assert!(matches!(
        request_step(0, ok_reply(vec![chosen_item("a")])),
        RequestStep::Done(Ok(Some(id))) if id == "a"
    ));
    assert!(matches!(request_step(2, ok_reply(vec![])), RequestStep::Done(Ok(None))));
    assert!(matches!(
        request_step(0, status_reply(299, "299")),
        RequestStep::Done(Err(RequestError::Decode { .. }))
    ));
    assert!(matches!(
        request_step(0, status_reply(199, "199")),
        RequestStep::Done(Err(RequestError::Http { code: 199, .. }))
    ));
    assert!(matches!(
        request_step(0, status_reply(300, "300 Multiple Choices")),
        RequestStep::Done(Err(RequestError::Http { code: 300, .. }))
    ));
    assert!(matches!(
        request_step(0, status_reply(500, "500 Internal Server Error")),
        RequestStep::Done(Err(RequestError::Http { code: 500, .. }))
    ));
    assert!(matches!(request_step(0, rate_limited(None)), RequestStep::Retry { wait_secs: 1 }));
    assert!(matches!(request_step(1, rate_limited(None)), RequestStep::Retry { wait_secs: 2 }));
    assert!(matches!(request_step(2, rate_limited(None)), RequestStep::Retry { wait_secs: 4 }));
    assert!(matches!(request_step(2, rate_limited(Some("120"))), RequestStep::Retry { wait_secs: 120 }));
    assert!(matches!(request_step(1, rate_limited(Some("soon"))), RequestStep::Retry { wait_secs: 2 }));
    assert!(matches!(request_step(1, rate_limited(Some(""))), RequestStep::Retry { wait_secs: 2 }));
    let failed = || Exchange::Failed { error: "dns".to_string() };
    assert!(matches!(request_step(0, failed()), RequestStep::Retry { wait_secs: 1 }));
    assert!(matches!(request_step(1, failed()), RequestStep::Retry { wait_secs: 2 }));
    assert!(matches!(
        request_step(2, failed()),
        RequestStep::Done(Err(RequestError::Transport { .. }))
    ));
    assert!(matches!(
        request_step(MAX_ATTEMPTS, ok_reply(vec![chosen_item("a")])),
        RequestStep::Done(Err(RequestError::RetriesExhausted))
    ));
}

#[test]
fn backoff_doubles_from_one() {
    assert_eq!(MAX_ATTEMPTS, 3);
    assert_eq!(backoff_secs(0), 1);
    assert_eq!(backoff_secs(1), 2);
    assert_eq!(backoff_secs(2), 4);
}

#[test]
fn parse_u64_reads_decimal_numbers() {
    assert_eq!(parse_u64("0"), Some(0));
    assert_eq!(parse_u64("7"), Some(7));
    assert_eq!(parse_u64("+7"), Some(7));
    assert_eq!(parse_u64("007"), Some(7));
    assert_eq!(parse_u64("120"), Some(120));
    assert_eq!(parse_u64("18446744073709551615"), Some(u64::MAX));
    assert_eq!(parse_u64("18446744073709551616"), None);
    assert_eq!(parse_u64("99999999999999999999999"), None);
    assert_eq!(parse_u64(""), None);
    assert_eq!(parse_u64("+"), None);
    assert_eq!(parse_u64("-1"), None);
    assert_eq!(parse_u64("++1"), None);
    assert_eq!(parse_u64("1+"), None);
    assert_eq!(parse_u64(" 1"), None);
    assert_eq!(parse_u64("1 "), None);
    assert_eq!(parse_u64("1_000"), None);
    assert_eq!(parse_u64("12a"), None);
    assert_eq!(parse_u64("٣"), None);
    assert_eq!(parse_u64("Wed, 21 Oct 2015 07:28:00 GMT"), None);
}

#[test]
fn parse_u64_agrees_with_the_standard_library() {
    for text in ["0", "+0", "-0", "1", "+", "", "00", "18446744073709551615", "18446744073709551616",
        "184467440737095516150", "9", "a", "1a", "+1", "1.5", "1e3", " ", "\n1"] {
        assert_eq!(parse_u64(text), text.parse::<u64>().ok(), "for {:?}", text);
    }
}

#[test]
fn pick_chosen_takes_the_first_flagged_candidate_only() {
    let plain = |id: &str, chosen: Option<bool>| RorItem {
        chosen,
        organization: Some(RorOrganization { id: id.to_string() }),
    };
    assert_eq!(pick_chosen(&vec![]), None);
    assert_eq!(pick_chosen(&vec![plain("a", None), plain("b", Some(false))]), None);
    assert_eq!(
        pick_chosen(&vec![plain("a", None), plain("b", Some(true)), plain("c", Some(true))]),
        Some("b".to_string())
    );
    let headless = RorItem { chosen: Some(true), organization: None };
    assert_eq!(pick_chosen(&vec![headless, plain("c", Some(true))]), None);
    let client = RorClient::new("http://r".to_string(), 1, 1);
    let response = RorResponse { items: vec![plain("a", Some(false)), plain("b", Some(true))] };
    assert_eq!(client.extract_chosen_ror_id(&response), Some("b".to_string()));
}

#[test]
fn search_url_percent_encodes_the_phrase() {
    let lookup = Lookup::start("http://localhost:9292", "Université de Paris & Co. (1/2)~x_y-z", false);
    assert_eq!(
        lookup.next_url().unwrap(),
        "http://localhost:9292/v2/organizations?affiliation=\"Universit%C3%A9%20de%20Paris%20%26%20Co.%20%281%2F2%29~x_y-z\"&single_search"
    );
    let lookup = Lookup::start("", "", true);
    assert_eq!(lookup.next_url().unwrap(), "/v2/organizations?affiliation=\"\"&single_search");
    assert_eq!(build_search_url("b", "e", false, false), "b/v2/organizations?affiliation=e");
    assert_eq!(build_search_url("b", "e", true, false), "b/v2/organizations?affiliation=\"e\"");
    assert_eq!(build_search_url("b", "e", false, true), "b/v2/organizations?affiliation=e&single_search");
}

#[test]
fn client_bounds_the_lookups_in_flight() {
    let limit = 3;
    let mut client = RorClient::new("http://r".to_string(), limit, 30);
    assert_eq!(client.base_url(), "http://r");
    assert_eq!(client.concurrency(), 3);
    assert_eq!(client.timeout_secs(), 30);
    let mut running = Vec::new();
    for i in 0..10 {
        match client.query_affiliation(&format!("Affiliation {}", i), false) {
            Some(lookup) => running.push(lookup),
            None => assert_eq!(client.in_flight(), limit),
        }
        assert!(client.in_flight() <= limit);
    }
    assert_eq!(running.len(), limit);
    assert_eq!(client.in_flight(), limit);

    // Each lookup that is finished lets exactly one more start.
    let done = running.pop().unwrap();
    assert!(client.finish(done).is_none());
    assert_eq!(client.in_flight(), limit - 1);
    assert!(client.query_affiliation("next", false).is_some());
    assert!(client.query_affiliation("one too many", false).is_none());
    assert_eq!(client.in_flight(), limit);
}

#[test]
fn client_finish_hands_out_the_outcome_and_never_goes_below_zero() {
    let mut client = RorClient::new("http://r".to_string(), 0, 30);
    assert!(client.query_affiliation("MIT", false).is_none());
    let mut lookup = Lookup::start("http://r", "MIT", false);
    lookup.record(ok_reply(vec![chosen_item("id")]));
    assert!(matches!(client.finish(lookup), Some(Resolution::Matched(id)) if id == "id"));
    assert_eq!(client.in_flight(), 0);
}

#[test]
fn outcome_record_routes_to_the_two_streams() {
    let record = outcome_record(
        "MIT".to_string(),
        "h1".to_string(),
        Resolution::Matched("https://ror.org/042nb2s44".to_string()),
    );
    match &record {
        SinkRecord::Matched(m) => {
            assert_eq!(m.affiliation, "MIT");
            assert_eq!(m.affiliation_hash, "h1");
            assert_eq!(m.ror_id, "https://ror.org/042nb2s44");
        }
        other => panic!("unexpected record {:?}", other),
    }
    assert_eq!(record.affiliation_hash(), "h1");

    let record = outcome_record("Nowhere".to_string(), "h2".to_string(), Resolution::NotMatched);
    match &record {
        SinkRecord::Failed(f) => {
            assert_eq!(f.affiliation, "Nowhere");
            assert_eq!(f.affiliation_hash, "h2");
            assert_eq!(f.error, "no match found");
        }
        other => panic!("unexpected record {:?}", other),
    }
    assert_eq!(record.affiliation_hash(), "h2");

    let record = outcome_record(
        "Down".to_string(),
        "h3".to_string(),
        Resolution::Failed(RequestError::Http { code: 500, status: "500 Internal Server Error".to_string() }),
    );
    match record {
        SinkRecord::Failed(f) => assert_eq!(f.error, "HTTP 500 Internal Server Error"),
        other => panic!("unexpected record {:?}", other),
    }
}

#[test]
fn no_match_is_recorded_as_a_failure_by_the_run() {
    let affiliations = vec!["Unknown Institution".to_string()];
    let mut run = Run::plan(&affiliations, Checkpoint::new("cp"));
    let (affiliation, hash) = run.unit(0).unwrap();
    assert_eq!(hash, hash_affiliation("Unknown Institution"));
    let lookup = Lookup::start("http://r", affiliation, false);
    let (result, _, _) = drive(lookup, &mut |_, _| ok_reply(vec![]));
    assert!(matches!(result, Resolution::NotMatched));
    let record = run.record_for(0, result).unwrap();
    match &record {
        SinkRecord::Failed(f) => {
            assert_eq!(f.affiliation, "Unknown Institution");
            assert_eq!(f.affiliation_hash, hash_affiliation("Unknown Institution"));
            assert_eq!(f.error, "no match found");
        }
        other => panic!("unexpected record {:?}", other),
    }
    assert!(run.mark_recorded(0, &record));
    assert_eq!(run.matched(), 0);
    assert_eq!(run.failed(), 1);
    assert_eq!(run.completed(), 1);
    assert!(run.is_finished());
    assert!(run.checkpoint().is_processed(&hash_affiliation("Unknown Institution")));
}

#[test]
fn pending_keeps_what_the_checkpoint_does_not_hold() {
    let affiliations = vec!["A".to_string(), "B".to_string(), "C".to_string()];
    let mut checkpoint = Checkpoint::new("cp");
    checkpoint.mark_processed(&hash_affiliation("B"));
    let units = pending(&affiliations, &checkpoint);
    assert_eq!(
        units,
        vec![
            ("A".to_string(), hash_affiliation("A")),
            ("C".to_string(), hash_affiliation("C")),
        ]
    );
    assert_eq!(pending(&vec![], &checkpoint), vec![]);
}

#[test]
fn resumed_run_does_not_repeat_finished_work() {
    // First run over {A, B}.
    let first = vec!["A".to_string(), "B".to_string()];
    let mut run = Run::plan(&first, open_checkpoint("cp", false, None));
    assert_eq!(run.total(), 2);
    let mut asked = Vec::new();
    for index in 0..run.total() {
        let (affiliation, _) = run.unit(index).unwrap();
        asked.push(affiliation.to_string());
        let record = run.record_for(index, Resolution::Matched(format!("id-{}", index))).unwrap();
        assert!(run.mark_recorded(index, &record));
    }
    assert!(run.is_finished());
    let saved = run.into_checkpoint().save();

    // Second run over {A, B, C}, resumed.
    let second = vec!["A".to_string(), "B".to_string(), "C".to_string()];
    let mut run = Run::plan(&second, open_checkpoint("cp", true, Some(&saved)));
    assert_eq!(run.total(), 1);
    let (affiliation, hash) = run.unit(0).unwrap();
    assert_eq!(affiliation, "C");
    assert_eq!(hash, hash_affiliation("C"));
    assert!(run.unit(1).is_none());
    let record = run.record_for(0, Resolution::NotMatched).unwrap();
    assert!(run.mark_recorded(0, &record));
    assert!(run.is_finished());
    let checkpoint = run.into_checkpoint();
    assert_eq!(checkpoint.len(), 3);
    assert_eq!(asked, vec!["A", "B"]);

    // Without resuming, everything is pending again.
    let run = Run::plan(&second, open_checkpoint("cp", false, Some(&saved)));
    assert_eq!(run.total(), 3);
}

#[test]
fn run_with_nothing_to_do_is_finished_at_once() {
    let run = Run::plan(&vec![], Checkpoint::new("cp"));
    assert_eq!(run.total(), 0);
    assert!(run.is_finished());
    assert_eq!(run.completed(), 0);
    assert!(run.unit(0).is_none());
    assert!(run.record_for(0, Resolution::NotMatched).is_none());
}

#[test]
fn run_marks_a_unit_only_once_and_only_for_its_own_record() {
    let affiliations = vec!["A".to_string(), "B".to_string()];
    let mut run = Run::plan(&affiliations, Checkpoint::new("cp"));
    let record_a = run.record_for(0, Resolution::Matched("id".to_string())).unwrap();
    let record_b = run.record_for(1, Resolution::NotMatched).unwrap();
    assert!(!run.mark_recorded(0, &record_b));
    assert!(!run.mark_recorded(2, &record_a));
    assert_eq!(run.completed(), 0);
    assert!(!run.checkpoint().is_processed(&hash_affiliation("A")));
    assert!(run.mark_recorded(0, &record_a));
    assert!(!run.mark_recorded(0, &record_a));
    assert_eq!(run.completed(), 1);
    assert_eq!(run.matched(), 1);
    assert!(!run.is_finished());
    assert!(run.checkpoint().is_processed(&hash_affiliation("A")));
    assert!(!run.checkpoint().is_processed(&hash_affiliation("B")));
    assert!(run.mark_recorded(1, &record_b));
    assert_eq!(run.failed(), 1);
    assert!(run.is_finished());
}

#[test]
fn sink_mode_appends_only_when_resuming_an_existing_file() {
    assert_eq!(sink_mode(true, true), SinkMode::Append);
    assert_eq!(sink_mode(true, false), SinkMode::Truncate);
    assert_eq!(sink_mode(false, true), SinkMode::Truncate);
    assert_eq!(sink_mode(false, false), SinkMode::Truncate);
}

#[test]
fn open_checkpoint_loads_only_when_resuming() {
    let cp = open_checkpoint("cp", true, Some("abc123\n"));
    assert!(cp.is_processed("abc123"));
    assert_eq!(cp.path(), "cp");
    let cp = open_checkpoint("cp", false, Some("abc123\n"));
    assert!(!cp.is_processed("abc123"));
    let cp = open_checkpoint("cp", true, None);
    assert_eq!(cp.len(), 0);
}

#[test]
fn query_args_defaults() {
    let args = QueryArgs::with_defaults("in".to_string(), "out".to_string());
    assert_eq!(args.input, "in");
    assert_eq!(args.output, "out");
    assert_eq!(args.base_url, "http://localhost:9292");
    assert_eq!(args.concurrency, 50);
    assert_eq!(args.timeout, 30);
    assert!(!args.resume);
    assert!(!args.fallback_multi);
}

#[test]
fn client_abandon_frees_the_place_of_a_lost_lookup() {
    let mut client = RorClient::new("http://r".to_string(), 1, 30);
    let lookup = client.query_affiliation("MIT", false);
    assert!(lookup.is_some());
    assert!(client.query_affiliation("Oxford", false).is_none());
    drop(lookup);
    client.abandon();
    assert_eq!(client.in_flight(), 0);
    client.abandon();
    assert_eq!(client.in_flight(), 0);
    assert!(client.query_affiliation("Oxford", false).is_some());
}

/// The percent-encoded form of `text`, written out from its definition.
fn reference_encoding(text: &str) -> String {
    let mut out = String::new();
    for b in text.bytes() {
        let keep = b.is_ascii_alphanumeric() || b == b'-' || b == b'.' || b == b'_' || b == b'~';
        if keep {
            out.push(b as char);
        } else {
            out.push('%');
            out.push(char::from_digit((b >> 4) as u32, 16).unwrap().to_ascii_uppercase());
            out.push(char::from_digit((b & 15) as u32, 16).unwrap().to_ascii_uppercase());
        }
    }
    out
}

#[test]
fn search_url_encodes_every_byte_as_defined() {
    let mut samples: Vec<String> = (0u8..128).map(|b| (b as char).to_string()).collect();
    samples.push("é".to_string());
    samples.push("日本語".to_string());
    samples.push("🎓 Uni".to_string());
    samples.push("a b\"c\"&d=e?f#g/h%i+j".to_string());
    samples.push("plain-text_only.~".to_string());
    for sample in samples {
        let url = Lookup::start("B", &sample, true).next_url().unwrap();
        let expected =
            format!("B/v2/organizations?affiliation=\"{}\"&single_search", reference_encoding(&sample));
        assert_eq!(url, expected, "for {:?}", sample);
    }
}
