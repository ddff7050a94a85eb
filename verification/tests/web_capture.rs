//! The web-capture component providers.

use web_search::providers::{CaptureItem, SUPPORTED_PROVIDERS};
use web_search::web_capture::{adapt_items, capture_results, provider_name};
use web_search::SearchError;

fn items() -> Vec<CaptureItem> {
    vec![
        CaptureItem {
            rank: 1,
            title: "Web Capture".to_string(),
            url: "https://example.com/search".to_string(),
            snippet: "normalized".to_string(),
        },
        CaptureItem {
            rank: 0,
            title: String::new(),
            url: "https://example.com/fallback".to_string(),
            snippet: String::new(),
        },
        CaptureItem {
            rank: 3,
            title: "Ignored".to_string(),
            url: String::new(),
            snippet: "missing URL".to_string(),
        },
    ]
}

#[test]
fn web_capture_provider_adapts_normalized_items() {
    let name = provider_name("bing");
    let results = adapt_items(&name, items());

    assert_eq!(results.len(), 2);
    assert_eq!(results[0].title, "Web Capture");
    assert_eq!(results[0].source, "wc:bing");
    assert_eq!(results[0].rank, 1);
    assert_eq!(results[1].title, "Untitled");
    assert_eq!(results[1].rank, 2);
}

// The web-capture crate is not part of this build, so its own engine list
// cannot be compared against; these are the five engines its README names.
#[test]
fn supported_engines_are_listed() {
    assert_eq!(SUPPORTED_PROVIDERS, ["wikipedia", "duckduckgo", "google", "bing", "brave"]);
    assert_eq!(provider_name("wikipedia"), "wc:wikipedia");
}

#[test]
fn blank_urls_are_dropped_and_ranks_kept() {
    let blank = vec![
        CaptureItem { rank: 7, title: " ".to_string(), url: " \t".to_string(), snippet: String::new() },
        CaptureItem { rank: 0, title: " t ".to_string(), url: "u".to_string(), snippet: "s".to_string() },
    ];
    let results = adapt_items("wc:google", blank);
    assert_eq!(results.len(), 1);
    assert_eq!(results[0].title, " t ");
    assert_eq!(results[0].rank, 2);
}

#[test]
fn component_answers_become_results_and_runtime_errors_none() {
    let ok = capture_results("wc:bing", Ok((200, items(), false)));
    assert_eq!(ok.len(), 2);
    assert_eq!(ok[0].source, "wc:bing");
    assert!(capture_results("wc:bing", Ok((200, items(), true))).is_empty());
    assert!(capture_results("wc:bing", Ok((503, items(), false))).is_empty());
    assert!(capture_results("wc:bing", Ok((200, Vec::new(), false))).is_empty());
    let offline = SearchError::Transport("offline".to_string());
    assert!(capture_results("wc:bing", Err(offline)).is_empty());
}
