//! The requests a descriptor-driven search sends and what its responses
//! yield, and the per-provider outcomes of a search.

use web_search::provider::{complete_search, plan_request, USER_AGENT};
use web_search::providers::all_descriptor_engines;
use web_search::search::{
    check_single, detailed_outcomes, providers_to_query, successful_results, ProviderAnswer,
};
use web_search::transport::set_header;
use web_search::{ProviderError, ProviderOutcome, ProviderOutcomeStatus, SearchError, SearchOptions};

fn descriptor(id: &str) -> web_search::providers::EngineDescriptor {
    all_descriptor_engines().into_iter().find(|d| d.id == id).unwrap()
}

#[test]
fn blank_queries_send_nothing() {
    let d = descriptor("wikipedia");
    assert!(plan_request(&d, "", &SearchOptions::default(), None).is_none());
    assert!(plan_request(&d, " \n\t", &SearchOptions::default(), None).is_none());
}

#[test]
fn get_requests_carry_browser_headers() {
    let d = descriptor("wikipedia");
    let req = plan_request(&d, "cat", &SearchOptions::default(), None).unwrap();
    assert_eq!(req.method, "GET");
    assert_eq!(req.url, "https://en.wikipedia.org/w/rest.php/v1/search/page?q=cat&limit=10");
    assert_eq!(
        req.headers,
        [
            ("Accept".to_string(), "application/json".to_string()),
            ("Accept-Language".to_string(), "en-US,en;q=0.9".to_string()),
            ("User-Agent".to_string(), USER_AGENT.to_string()),
        ]
    );
    assert!(req.body.is_none());
}

#[test]
fn github_replaces_the_accept_header_and_adds_its_token() {
    let d = descriptor("github");
    let req = plan_request(&d, "cat", &SearchOptions::default(), Some("tok")).unwrap();
    let names: Vec<&str> = req.headers.iter().map(|(n, _)| n.as_str()).collect();
    assert_eq!(names, ["Accept", "Accept-Language", "Authorization", "User-Agent", "X-GitHub-Api-Version"]);
    assert_eq!(req.headers[0].1, "application/vnd.github+json");
    assert_eq!(req.headers[2].1, "Bearer tok");
    assert_eq!(req.headers[4].1, "2022-11-28");
}

#[test]
fn posting_engines_send_a_form_body() {
    let d = descriptor("lite");
    let req = plan_request(&d, "cat", &SearchOptions::default(), None).unwrap();
    assert_eq!(req.method, "POST");
    assert_eq!(req.url, "https://lite.duckduckgo.com/lite/");
    assert_eq!(req.body, Some(b"q=cat".to_vec()));
    assert_eq!(
        req.headers[2],
        ("Content-Type".to_string(), "application/x-www-form-urlencoded".to_string())
    );
    assert_eq!(req.headers[0].1, "text/html,application/xhtml+xml,application/xml;q=0.9");
    assert_eq!(req.headers[3].0, "User-Agent");
}

#[test]
fn responses_outside_2xx_are_api_errors() {
    let d = descriptor("wikipedia");
    match complete_search(&d, 404, &b"{}".to_vec(), &SearchOptions::default()) {
        Err(SearchError::ApiError { provider, message }) => {
            assert_eq!(provider, "wikipedia");
            assert_eq!(message, "HTTP 404");
        }
        other => panic!("unexpected {other:?}"),
    }
    assert!(complete_search(&d, 199, &vec![], &SearchOptions::default()).is_err());
    assert!(complete_search(&d, 300, &vec![], &SearchOptions::default()).is_err());
}

#[test]
fn successful_responses_are_parsed_with_the_requested_limit() {
    let d = descriptor("wikipedia");
    let body = br#"{"pages":[{"key":"A","title":"A"},{"key":"B","title":"B"}]}"#.to_vec();
    let all = complete_search(&d, 200, &body, &SearchOptions::default()).unwrap();
    assert_eq!(all.len(), 2);
    let one = SearchOptions { limit: Some(1), ..SearchOptions::default() };
    assert_eq!(complete_search(&d, 299, &body, &one).unwrap().len(), 1);
    // Invalid UTF-8 is decoded lossily and then fails to parse as JSON.
    assert!(complete_search(&d, 200, &vec![0xff, 0xfe], &SearchOptions::default()).unwrap().is_empty());
}

#[test]
fn setting_a_header_replaces_it_in_place() {
    let mut headers = vec![("A".to_string(), "1".to_string()), ("B".to_string(), "2".to_string())];
    set_header(&mut headers, "A".to_string(), "3".to_string());
    assert_eq!(headers, [("A".to_string(), "3".to_string()), ("B".to_string(), "2".to_string())]);
    set_header(&mut headers, "C".to_string(), "4".to_string());
    assert_eq!(headers.len(), 3);
}

#[test]
fn headers_are_kept_in_name_order() {
    let mut headers = Vec::new();
    for (name, value) in [("b", "1"), ("B", "2"), ("a", "3"), ("Ab", "4"), ("A", "5"), ("b", "6")] {
        set_header(&mut headers, name.to_string(), value.to_string());
    }
    let names: Vec<&str> = headers.iter().map(|(n, _)| n.as_str()).collect();
    assert_eq!(names, ["A", "Ab", "B", "a", "b"]);
    assert_eq!(headers[4].1, "6");
}

#[test]
fn provider_errors_keep_their_category() {
    let e = ProviderError::from(&SearchError::Transport("offline".to_string()));
    assert_eq!(e.kind, "transport");
    assert_eq!(e.message, "Transport failed: offline");
    let e = ProviderError::from(&SearchError::JsonError("bad".to_string()));
    assert_eq!(e.kind, "parse");
    assert_eq!(e.message, "JSON error: bad");
    let e = ProviderError::from(&SearchError::ApiError {
        provider: "x".to_string(),
        message: "HTTP 500".to_string(),
    });
    assert_eq!(e.kind, "api");
    assert_eq!(e.message, "API error from x: HTTP 500");
    assert_eq!(SearchError::ProviderDisabled("y".to_string()).message(), "Provider y is disabled");
    assert_eq!(SearchError::ConfigError("z".to_string()).kind(), "configuration");
    assert_eq!(SearchError::UrlError("u".to_string()).kind(), "url");
    assert_eq!(SearchError::RequestError("r".to_string()).kind(), "request");
}

#[test]
fn outcomes_record_status_results_and_errors() {
    let unknown = ProviderOutcome::unknown("nope".to_string());
    assert_eq!(unknown.status, ProviderOutcomeStatus::Error);
    let err = unknown.error.as_ref().unwrap();
    assert_eq!(err.kind, "unknown_provider");
    assert_eq!(err.message, "Unknown provider: nope");

    let off = ProviderOutcome::unavailable("wikipedia".to_string());
    assert_eq!(off.status, ProviderOutcomeStatus::Unavailable);
    assert!(off.error.is_none());

    let failed = ProviderOutcome::finished(
        "github".to_string(),
        Err(SearchError::Transport("offline".to_string())),
        vec![],
    );
    assert_eq!(failed.status, ProviderOutcomeStatus::Error);
    assert_eq!(failed.error.as_ref().unwrap().kind, "transport");

    let d = descriptor("wikipedia");
    let body = br#"{"pages":[{"key":"Cat","title":"Cat","excerpt":"A cat"}]}"#.to_vec();
    let ok = ProviderOutcome::finished(
        "wikipedia".to_string(),
        complete_search(&d, 200, &body, &SearchOptions::default()),
        vec![],
    );
    assert_eq!(ok.status, ProviderOutcomeStatus::Success);
    assert_eq!(ok.results[0].url, "https://en.wikipedia.org/wiki/Cat");

    let merged = successful_results(&vec![ok, failed, off, unknown]);
    assert_eq!(merged.len(), 1);
    assert_eq!(merged[0].0, "wikipedia");
    assert_eq!(merged[0].1.len(), 1);
}

#[test]
fn searches_ask_the_requested_or_default_providers() {
    let defaults = vec!["duckduckgo".to_string()];
    assert!(providers_to_query("", Some(vec!["a".to_string()]), &defaults).is_empty());
    assert_eq!(providers_to_query("q", Some(vec!["a".to_string()]), &defaults), ["a"]);
    assert_eq!(providers_to_query("q", None, &defaults), ["duckduckgo"]);
}

#[test]
fn single_provider_searches_need_a_registered_enabled_provider() {
    assert!(check_single("x", true, true).is_ok());
    match check_single("x", false, true) {
        Err(SearchError::UnknownProvider(n)) => assert_eq!(n, "x"),
        other => panic!("unexpected {other:?}"),
    }
    match check_single("x", true, false) {
        Err(SearchError::ProviderDisabled(n)) => assert_eq!(n, "x"),
        other => panic!("unexpected {other:?}"),
    }
}

fn hit(url: &str, source: &str) -> web_search::SearchResult {
    web_search::SearchResult {
        title: "t".to_string(),
        url: url.to_string(),
        snippet: String::new(),
        source: source.to_string(),
        rank: 1,
        sources: None,
    }
}

#[test]
fn detailed_outcomes_follow_the_asked_providers() {
    let asked = vec![
        ("nope".to_string(), ProviderAnswer::Unregistered),
        ("bing".to_string(), ProviderAnswer::Disabled),
        ("arxiv".to_string(), ProviderAnswer::Searched(Ok(vec![hit("https://a.org/1", "arxiv")]), Vec::new())),
        (
            "github".to_string(),
            ProviderAnswer::Searched(Err(SearchError::Transport("offline".to_string())), Vec::new()),
        ),
        ("arxiv".to_string(), ProviderAnswer::Searched(Ok(vec![hit("https://a.org/2", "arxiv")]), Vec::new())),
    ];
    let outcomes = detailed_outcomes(asked);
    let names: Vec<&str> = outcomes.iter().map(|o| o.provider.as_str()).collect();
    assert_eq!(names, ["nope", "bing", "arxiv", "github", "arxiv"]);
    assert_eq!(outcomes[0].status, ProviderOutcomeStatus::Error);
    assert_eq!(outcomes[0].error.as_ref().unwrap().kind, "unknown_provider");
    assert_eq!(outcomes[1].status, ProviderOutcomeStatus::Unavailable);
    assert!(outcomes[1].error.is_none());
    assert_eq!(outcomes[2].status, ProviderOutcomeStatus::Success);
    assert_eq!(outcomes[3].error.as_ref().unwrap().message, "Transport failed: offline");
    // A provider asked twice counts once, with its last results.
    let merged = successful_results(&outcomes);
    assert_eq!(merged.len(), 1);
    assert_eq!(merged[0].0, "arxiv");
    assert_eq!(merged[0].1[0].url, "https://a.org/2");
}
